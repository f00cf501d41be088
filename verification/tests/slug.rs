use permalink::cjk_slug::{
    in_class, is_allowed, is_whitespace, lower, normalize, normalize_hangul, normalize_katakana,
    slugify, CharClass,
};
use regex::Regex;
use unicode_normalization::UnicodeNormalization;

#[test]
fn test_slugify_1() {
    assert_eq!(
        slugify("당근마켓 - 대한민국 1등 동네 커뮤니티"),
        "당근마켓-대한민국-1등-동네-커뮤니티".to_string(),
    );
}

#[test]
fn test_slugify_2() {
    assert_eq!(slugify("PM/기획"), "pm-기획".to_string());
}

#[test]
fn test_slugify_3() {
    assert_eq!(slugify("개발 (iOS / 안드로이드)"), "개발-ios-안드로이드".to_string());
}

#[test]
fn test_slugify_4() {
    assert_eq!(
        slugify("자바스크립트도 \"당근\"이세요?"),
        "자바스크립트도-당근이세요".to_string(),
    );
}

#[test]
fn test_slugify_5() {
    assert_eq!(
        slugify("ホロライブプロダクション Hororaibu Purodakushon"),
        "ホロライブプロダクション-hororaibu-purodakushon".to_string(),
    );
}

#[test]
fn test_slugify_6() {
    assert_eq!(slugify("------TITLE------"), "title".to_string());
}

#[test]
fn test_slugify_7() {
    assert_eq!(slugify("Parse, don’t validate"), "parse-dont-validate".to_string());
}

#[test]
fn test_slugify_8() {
    assert_eq!(
        slugify("Alexis King said \"Parse, don\'t validate\""),
        "alexis-king-said-parse-dont-validate".to_string(),
    );
}

#[test]
fn test_slugify_9() {
    assert_eq!(
        slugify("Someone shout \"help, help!\", but no one care"),
        "someone-shout-help-help-but-no-one-care".to_string(),
    );
}

#[test]
fn test_normalize_hungul() {
    assert_eq!(normalize_hangul("㈜당근마켓"), "(주)당근마켓");
}

#[test]
fn test_normalize_katakana() {
    assert_eq!(normalize_katakana("ﾆｯﾎﾟﾝ"), "ニッポン");
}

#[test]
fn slug_of_straight_apostrophe() {
    assert_eq!(slugify("Parse, don't validate"), "parse-dont-validate");
}

#[test]
fn slug_of_empty_text_is_empty() {
    assert_eq!(slugify(""), "");
}

#[test]
fn slug_of_text_without_allowed_characters_is_empty() {
    assert_eq!(slugify("?!... ___ \"'\""), "");
    assert_eq!(slugify("-"), "");
    assert_eq!(slugify("--"), "");
    assert_eq!(slugify("\u{3000}"), "");
}

#[test]
fn normalize_rewrites_both_ranges() {
    assert_eq!(normalize("ﾆｯﾎﾟﾝ ㈜당근"), "ニッポン (주)당근");
    // A run is rewritten as a whole: the voiced mark joins its letter.
    assert_eq!(normalize_katakana("ｶﾞ"), "ガ");
    assert_eq!(normalize_katakana("abc"), "abc");
    assert_eq!(normalize_hangul("ﾆｯﾎﾟﾝ"), "ﾆｯﾎﾟﾝ");
    assert_eq!(normalize_hangul("ㄱ"), "\u{1100}");
}

#[test]
fn normalize_leaves_other_text_as_it_is() {
    // Outside the two ranges nothing is normalized, not even what Form KC
    // would change.
    assert_eq!(normalize("ＡＢＣ ① ﬁ"), "ＡＢＣ ① ﬁ");
}

#[test]
fn slug_keeps_half_width_katakana_as_full_width() {
    assert_eq!(slugify("ﾆｯﾎﾟﾝ ﾊﾞﾝｻﾞｲ"), "ニッポン-バンザイ");
}

#[test]
fn slug_of_circled_hangul() {
    assert_eq!(slugify("㈜당근마켓"), "주-당근마켓");
}

#[test]
fn slug_lowercases_full_width_capitals() {
    assert_eq!(slugify("ＡＢＣ Ｚ"), "ａｂｃ-ｚ");
    assert_eq!(lower('Ａ'), 'ａ');
    assert_eq!(lower('Ｚ'), 'ｚ');
    assert_eq!(lower('A'), 'a');
    assert_eq!(lower('Z'), 'z');
    assert_eq!(lower('['), '[');
    assert_eq!(lower('@'), '@');
    assert_eq!(lower('가'), '가');
}

#[test]
fn slug_takes_digits_other_than_ascii_for_separators() {
    assert_eq!(slugify("a٣b"), "a-b");
    assert_eq!(slugify("a３b"), "a３b");
}

#[test]
fn slug_separates_at_underscores_and_punctuation() {
    assert_eq!(slugify("snake_case__name"), "snake-case-name");
    assert_eq!(slugify("  a  b\t\nc  "), "a-b-c");
    assert_eq!(slugify("a.b,c;d"), "a-b-c-d");
    assert_eq!(slugify("-a-"), "a");
    assert_eq!(slugify("`a´b"), "ab");
}

fn samples() -> Vec<String> {
    let alphabet: Vec<char> = "aZ09-_ \t\"'’`.,/?%가힣ｶﾞﾟㄱ㈜Ａｚ。カ漢ひ\u{3000}\u{a0}é٣!"
        .chars()
        .collect();
    let mut out = vec![];
    let mut state: u64 = 0x2545_f491_4f6c_dd1d;
    for _ in 0..4000 {
        let mut text = String::new();
        state = state.wrapping_mul(6364136223846793005).wrapping_add(1442695040888963407);
        let len = (state >> 33) % 12;
        for _ in 0..len {
            state = state.wrapping_mul(6364136223846793005).wrapping_add(1442695040888963407);
            text.push(alphabet[((state >> 33) as usize) % alphabet.len()]);
        }
        out.push(text);
    }
    out
}

#[test]
fn slugify_twice_is_slugify_once() {
    for text in samples() {
        let once = slugify(&text);
        assert_eq!(slugify(&once), once, "for {:?}", text);
    }
}

#[test]
fn slug_has_the_shape_of_a_slug() {
    for text in samples() {
        let slug = slugify(&text);
        assert!(!slug.contains("--"), "for {:?}", text);
        assert!(!slug.starts_with('-') && !slug.ends_with('-'), "for {:?}", text);
        for c in slug.chars() {
            assert!(!c.is_whitespace() && c != '_', "for {:?}", text);
            assert!(!"\"'\u{2bc}`\u{b4}\u{2018}\u{2019}\u{201c}\u{201d}".contains(c));
            assert!(is_allowed(c) && lower(c) == c, "for {:?}", text);
        }
    }
}

fn slugify_by_patterns(text: &str) -> String {
    let quotes =
        Regex::new(r"[\u0022\u0027\u02bc\u0060\u00b4\u2018\u2019\u201c\u201d]").unwrap();
    let spaces = Regex::new(r"[\s_]+").unwrap();
    let others = Regex::new(
        r"[^a-zA-Z0-9\-\u3040-\u309f\u30a0-\u30ff\u3400-\u4dbf\u4e00-\u9faf\uac00-\ud7a3\uff00-\uff9f]",
    )
    .unwrap();
    let dashes = Regex::new(r"-+").unwrap();
    let edges = Regex::new(r"^-|-$").unwrap();
    let slug = normalize(text);
    let slug = quotes.replace_all(slug.as_str(), "").to_string();
    let slug = spaces.replace_all(slug.as_str(), "-").to_string();
    let slug = others.replace_all(slug.as_str(), "-").to_string();
    let slug = dashes.replace_all(slug.as_str(), "-").to_string();
    let slug = edges.replace_all(slug.as_str(), "").to_string();
    slug.to_lowercase()
}

#[test]
fn slugify_agrees_with_the_patterns() {
    for text in samples() {
        assert_eq!(slugify(&text), slugify_by_patterns(&text), "for {:?}", text);
    }
}

#[test]
fn classes_agree_with_the_patterns() {
    let quotes =
        Regex::new(r"^[\u0022\u0027\u02bc\u0060\u00b4\u2018\u2019\u201c\u201d]$").unwrap();
    let spaces = Regex::new(r"^[\s_]$").unwrap();
    let allowed = Regex::new(
        r"^[a-zA-Z0-9\-\u3040-\u309f\u30a0-\u30ff\u3400-\u4dbf\u4e00-\u9faf\uac00-\ud7a3\uff00-\uff9f]$",
    )
    .unwrap();
    let hangul = Regex::new(
        r"^[\u1100-\u11ff\u3130-\u318f\u3200-\u321e\u3260-\u327f\uffa0-\uffdc\uffe6]$",
    )
    .unwrap();
    let kana = Regex::new(r"^[\uff60-\uff9f]$").unwrap();
    let mut buffer = [0u8; 4];
    for code in 0..=0x2_ffffu32 {
        let c = match char::from_u32(code) {
            Some(c) => c,
            None => continue,
        };
        let text: &str = c.encode_utf8(&mut buffer);
        assert_eq!(in_class(CharClass::Quote, c), quotes.is_match(text), "{:x}", code);
        assert_eq!(in_class(CharClass::Separator, c), spaces.is_match(text), "{:x}", code);
        assert_eq!(in_class(CharClass::HangulCompat, c), hangul.is_match(text), "{:x}", code);
        assert_eq!(in_class(CharClass::HalfwidthKana, c), kana.is_match(text), "{:x}", code);
        assert_eq!(in_class(CharClass::Dash, c), c == '-', "{:x}", code);
        assert_eq!(is_allowed(c), allowed.is_match(text), "{:x}", code);
        assert_eq!(is_whitespace(c), c.is_whitespace(), "{:x}", code);
    }
}

#[test]
fn lower_agrees_with_std_on_allowed_characters() {
    for code in 0..=0x10_ffffu32 {
        if let Some(c) = char::from_u32(code) {
            if is_allowed(c) {
                assert_eq!(lower(c).to_string(), c.to_lowercase().to_string(), "{:x}", code);
            }
        }
    }
}

#[test]
fn form_kc_holds_no_half_width_katakana() {
    let half_width = |c: char| in_class(CharClass::HalfwidthKana, c);
    for code in 0..=0x10_ffffu32 {
        if let Some(c) = char::from_u32(code) {
            assert!(!c.nfkc().any(half_width), "{:x}", code);
        }
    }
    for first in 0xff60..=0xff9fu32 {
        for second in 0xff60..=0xff9fu32 {
            let run: String =
                [char::from_u32(first).unwrap(), char::from_u32(second).unwrap()].iter().collect();
            assert!(!run.nfkc().any(half_width), "{:?}", run);
            assert!(!normalize_katakana(&run).chars().any(half_width), "{:?}", run);
            assert_eq!(normalize_katakana(&run), run.nfkc().collect::<String>());
        }
    }
    for text in samples() {
        assert!(!normalize(&text).chars().any(half_width), "{:?}", text);
    }
}
