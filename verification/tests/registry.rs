use permalink::{
    normalize_origin, well_known_country_from_origin, well_known_language_from_country,
    well_known_origin_from_country, PermalinkError, WellKnownCountry, WellKnownLanguage,
};

const COUNTRIES: [WellKnownCountry; 5] = [
    WellKnownCountry::CA,
    WellKnownCountry::JP,
    WellKnownCountry::KR,
    WellKnownCountry::UK,
    WellKnownCountry::US,
];

#[test]
fn country_codes() {
    assert_eq!(WellKnownCountry::CA.code(), "ca");
    assert_eq!(WellKnownCountry::JP.code(), "jp");
    assert_eq!(WellKnownCountry::KR.code(), "kr");
    assert_eq!(WellKnownCountry::UK.code(), "uk");
    assert_eq!(WellKnownCountry::US.code(), "us");
}

#[test]
fn country_from_its_code_in_any_case() {
    for country in COUNTRIES {
        let code = country.code();
        let upper = code.to_uppercase();
        let mixed = format!("{}{}", &upper[..1], &code[1..]);
        let other = format!("{}{}", &code[..1], &upper[1..]);
        assert_eq!(WellKnownCountry::from_str(code), Ok(country));
        assert_eq!(WellKnownCountry::from_str(&upper), Ok(country));
        assert_eq!(WellKnownCountry::from_str(&mixed), Ok(country));
        assert_eq!(WellKnownCountry::from_str(&other), Ok(country));
    }
}

#[test]
fn unknown_codes_are_reported_as_they_stand() {
    for code in ["xx", "XX", "", "k", "kor", "k r", "\u{212a}r", "ｋｒ", "de"] {
        assert_eq!(
            WellKnownCountry::from_str(code),
            Err(PermalinkError::UnknownCountry(code.to_string())),
        );
    }
}

#[test]
fn languages_of_countries() {
    assert_eq!(well_known_language_from_country(WellKnownCountry::CA), WellKnownLanguage::EN);
    assert_eq!(well_known_language_from_country(WellKnownCountry::JP), WellKnownLanguage::JA);
    assert_eq!(well_known_language_from_country(WellKnownCountry::KR), WellKnownLanguage::KO);
    assert_eq!(well_known_language_from_country(WellKnownCountry::UK), WellKnownLanguage::EN);
    assert_eq!(well_known_language_from_country(WellKnownCountry::US), WellKnownLanguage::EN);
    assert_eq!(WellKnownLanguage::EN.code(), "en");
    assert_eq!(WellKnownLanguage::JA.code(), "ja");
    assert_eq!(WellKnownLanguage::KO.code(), "ko");
    assert_eq!(WellKnownCountry::JP.default_language(), "ja");
    assert_eq!(WellKnownCountry::UK.default_language(), "en");
    for country in COUNTRIES {
        assert_eq!(WellKnownLanguage::from(country), well_known_language_from_country(country));
    }
    let language: WellKnownLanguage = WellKnownCountry::KR.into();
    assert_eq!(language, WellKnownLanguage::KO);
}

#[test]
fn origins_of_countries() {
    assert_eq!(
        well_known_origin_from_country(WellKnownCountry::CA),
        "https://ca.karrotmarket.com"
    );
    assert_eq!(
        well_known_origin_from_country(WellKnownCountry::JP),
        "https://jp.karrotmarket.com"
    );
    assert_eq!(well_known_origin_from_country(WellKnownCountry::KR), "https://www.daangn.com");
    assert_eq!(
        well_known_origin_from_country(WellKnownCountry::UK),
        "https://uk.karrotmarket.com"
    );
    assert_eq!(
        well_known_origin_from_country(WellKnownCountry::US),
        "https://us.karrotmarket.com"
    );
}

#[test]
fn countries_of_origins() {
    let from = |origin: &str| well_known_country_from_origin(origin.to_string());
    assert_eq!(from("https://www.daangn.com"), Some(WellKnownCountry::KR));
    assert_eq!(from("https://daangn.com"), Some(WellKnownCountry::KR));
    assert_eq!(from("https://kr.karrotmarket.com"), Some(WellKnownCountry::KR));
    assert_eq!(from("https://ca.karrotmarket.com"), Some(WellKnownCountry::CA));
    assert_eq!(from("https://jp.karrotmarket.com"), Some(WellKnownCountry::JP));
    assert_eq!(from("https://uk.karrotmarket.com"), Some(WellKnownCountry::UK));
    assert_eq!(from("https://us.karrotmarket.com"), Some(WellKnownCountry::US));
    assert_eq!(from("https://www.karrotmarket.com"), None);
    assert_eq!(from("https://karrotmarket.com"), None);
    assert_eq!(from("http://www.daangn.com"), None);
    assert_eq!(from("https://www.daangn.com:8443"), None);
    assert_eq!(from("https://apps.apple.com"), None);
    assert_eq!(from("null"), None);
    assert_eq!(from(""), None);
}

#[test]
fn origin_of_a_country_belongs_to_it() {
    for country in COUNTRIES {
        assert_eq!(
            well_known_country_from_origin(well_known_origin_from_country(country)),
            Some(country)
        );
    }
}

#[test]
fn aliases_of_origins() {
    assert_eq!(normalize_origin("https://daangn.com".to_string()), "https://www.daangn.com");
    assert_eq!(
        normalize_origin("https://karrotmarket.com".to_string()),
        "https://www.karrotmarket.com"
    );
    assert_eq!(
        normalize_origin("https://ca.karrotmarket.com".to_string()),
        "https://ca.karrotmarket.com"
    );
    assert_eq!(normalize_origin("http://daangn.com".to_string()), "http://daangn.com");
}

#[test]
fn messages_of_errors() {
    assert_eq!(PermalinkError::InvalidPermalink.message(), "invalid permalink");
    assert_eq!(
        PermalinkError::UnknownCountry("xx".to_string()).message(),
        "unknown country code `xx`"
    );
    let error = permalink::parse("no url".to_string()).unwrap_err();
    assert_eq!(error.message(), "invalid url");
}
