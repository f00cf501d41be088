use permalink::{
    canonicalize, normalize, parse, Permalink, PermalinkError, UrlParts, WellKnownCountry,
    WellKnownLanguage,
};

#[test]
fn parse_valid_permalink() {
    let permalink = parse(
        "https://www.daangn.com/kr/app/당근마켓-대한민국-1등-동네-앱-id1018769995/".to_string(),
    );
    assert!(permalink.is_ok());

    let permalink = permalink.unwrap();
    assert_eq!(permalink.country, WellKnownCountry::KR);
    assert_eq!(permalink.language, WellKnownLanguage::KO);
    assert_eq!(permalink.service_type, "app".to_string());
    assert_eq!(permalink.title, Some("당근마켓-대한민국-1등-동네-앱".to_string()));
    assert_eq!(permalink.id, "id1018769995".to_string());
}

#[test]
fn test_parse_valid_permalink() {
    let permalink = Permalink::parse_str(
        "https://www.daangn.com/kr/app/당근마켓-대한민국-1등-동네-앱-id1018769995/",
    )
    .unwrap();
    assert_eq!(permalink.country, WellKnownCountry::KR);
    assert_eq!(permalink.default_language(), "ko".to_string());
    assert_eq!(permalink.service_type, "app".to_string());
    assert_eq!(permalink.title, Some("당근마켓-대한민국-1등-동네-앱".to_string()));
    assert_eq!(permalink.id, "id1018769995".to_string());
}

#[test]
fn test_parse_valid_permalink_without_trailing_slash() {
    let permalink = Permalink::parse_str(
        "https://www.daangn.com/kr/app/당근마켓-대한민국-1등-동네-앱-id1018769995",
    )
    .unwrap();
    assert_eq!(permalink.country, WellKnownCountry::KR);
    assert_eq!(permalink.default_language(), "ko".to_string());
    assert_eq!(permalink.service_type, "app".to_string());
    assert_eq!(permalink.title, Some("당근마켓-대한민국-1등-동네-앱".to_string()));
    assert_eq!(permalink.id, "id1018769995".to_string());
}

#[test]
fn test_parse_valid_permalink_without_title() {
    let permalink =
        Permalink::parse_str("https://www.daangn.com/kr/app/id1018769995/").unwrap();
    assert_eq!(permalink.country, WellKnownCountry::KR);
    assert_eq!(permalink.default_language(), "ko".to_string());
    assert_eq!(permalink.service_type, "app".to_string());
    assert_eq!(permalink.title, None);
    assert_eq!(permalink.id, "id1018769995".to_string());
}

#[test]
fn test_parse_invalid_url() {
    let result = Permalink::parse_str("invalid/kr/app/id1018769995/");
    assert!(matches!(result, Err(PermalinkError::InvalidUrl(_))));
}

#[test]
fn test_parse_invalid_permalink() {
    let result = Permalink::parse_str(
        "https://apps.apple.com/kr/app/%EB%8B%B9%EA%B7%BC%EB%A7%88%EC%BC%93/id1018769995",
    );
    assert!(matches!(result, Err(PermalinkError::InvalidPermalink)));
}

#[test]
fn test_parse_well_known_host() {
    let permalink =
        Permalink::parse_str("https://www.daangn.com/ca/app/id1018769995/").unwrap();
    assert_eq!(permalink.country, WellKnownCountry::KR);
    assert_eq!(permalink.default_language(), "ko".to_string());
    assert_eq!(permalink.service_type, "app".to_string());
    assert_eq!(permalink.title, None);
    assert_eq!(permalink.id, "id1018769995".to_string());
}

#[test]
fn test_parse_country_case_insensitive() {
    let permalink =
        Permalink::parse_str("https://www.daangn.com/KR/app/id1018769995/").unwrap();
    assert_eq!(permalink.country, WellKnownCountry::KR);
    assert_eq!(permalink.default_language(), "ko".to_string());
    assert_eq!(permalink.service_type, "app".to_string());
    assert_eq!(permalink.title, None);
    assert_eq!(permalink.id, "id1018769995".to_string());
}

#[test]
fn test_parse_unknown_country() {
    let result = Permalink::parse_str("http://localhost/xx/app/id1018769995/");
    assert_eq!(result, Err(PermalinkError::UnknownCountry("xx".to_string())));
}

#[test]
fn test_normalize() {
    let permalink = Permalink::parse_str(
        "https://www.daangn.com/kr/app/당근마켓-대한민국-1등-동네-앱-id1018769995/",
    )
    .unwrap();
    assert_eq!(
        permalink.normalize(),
        "https://www.karrotmarket.com/kr/app/id1018769995/".to_string(),
    );
}

#[test]
fn test_canonicalize() {
    let permalink =
        Permalink::parse_str("https://www.daangn.com/kr/app/id1018769995/").unwrap();
    assert_eq!(
        permalink.canonicalize("당근마켓-대한민국-1등-동네-앱"),
        "https://www.daangn.com/kr/app/%EB%8B%B9%EA%B7%BC%EB%A7%88%EC%BC%93-%EB%8C%80%ED%95%9C%EB%AF%BC%EA%B5%AD-1%EB%93%B1-%EB%8F%99%EB%84%A4-%EC%95%B1-id1018769995/".to_string(),
    );
}

fn record(country: WellKnownCountry, service_type: &str, id: &str) -> Permalink {
    Permalink {
        country,
        language: permalink::well_known_language_from_country(country),
        service_type: service_type.to_string(),
        title: None,
        id: id.to_string(),
        data: None,
    }
}

fn parts(origin: &str, path: &str) -> UrlParts {
    UrlParts { origin: origin.to_string(), path: path.to_string() }
}

#[test]
fn parse_reads_every_field() {
    let permalink =
        parse("https://ca.karrotmarket.com/ca/buy-sell/nice-bike-AbCd1234/from_feed-1/".to_string())
            .unwrap();
    assert_eq!(
        permalink,
        Permalink {
            country: WellKnownCountry::CA,
            language: WellKnownLanguage::EN,
            service_type: "buy-sell".to_string(),
            title: Some("nice-bike".to_string()),
            id: "AbCd1234".to_string(),
            data: Some("from_feed-1".to_string()),
        }
    );
}

#[test]
fn parse_takes_the_country_of_the_path_on_a_neutral_origin() {
    for (url, country, language) in [
        ("https://www.karrotmarket.com/jp/app/id1018769995/", WellKnownCountry::JP, "ja"),
        ("https://karrotmarket.com/uk/app/id1018769995", WellKnownCountry::UK, "en"),
        ("http://localhost:3000/Us/app/id1018769995/", WellKnownCountry::US, "en"),
        ("https://example.com/kR/app/id1018769995/x", WellKnownCountry::KR, "ko"),
    ] {
        let permalink = Permalink::parse_str(url).unwrap();
        assert_eq!(permalink.country, country);
        assert_eq!(permalink.language, permalink::well_known_language_from_country(country));
        assert_eq!(permalink.default_language(), language);
    }
}

#[test]
fn parse_takes_the_country_of_the_origin_before_that_of_the_path() {
    for (url, country) in [
        ("https://www.daangn.com/ca/app/id1018769995/", WellKnownCountry::KR),
        ("https://daangn.com/us/app/id1018769995/", WellKnownCountry::KR),
        ("https://kr.karrotmarket.com/jp/app/id1018769995/", WellKnownCountry::KR),
        ("https://jp.karrotmarket.com/kr/app/id1018769995/", WellKnownCountry::JP),
        ("https://uk.karrotmarket.com/xx/app/id1018769995/", WellKnownCountry::UK),
        ("HTTPS://US.KARROTMARKET.COM:443/ca/app/id1018769995/", WellKnownCountry::US),
    ] {
        assert_eq!(Permalink::parse_str(url).unwrap().country, country, "{}", url);
    }
}

#[test]
fn parse_reports_an_unknown_code_as_it_stands() {
    assert_eq!(
        Permalink::parse_str("https://www.karrotmarket.com/xx/app/id1018769995/"),
        Err(PermalinkError::UnknownCountry("xx".to_string()))
    );
    assert_eq!(
        Permalink::parse_str("https://www.karrotmarket.com/Xy/app/id1018769995/"),
        Err(PermalinkError::UnknownCountry("Xy".to_string()))
    );
    // The origin has to be exactly a well-known one.
    assert_eq!(
        Permalink::parse_str("http://www.daangn.com/de/app/id1018769995/"),
        Err(PermalinkError::UnknownCountry("de".to_string()))
    );
}

#[test]
fn parse_refuses_a_path_before_it_looks_at_the_country() {
    assert_eq!(
        Permalink::parse_str("https://www.karrotmarket.com/xx/app/short/"),
        Err(PermalinkError::InvalidPermalink)
    );
}

#[test]
fn parse_refuses_a_title_that_is_no_utf8() {
    assert_eq!(
        Permalink::parse_url(parts("https://www.daangn.com", "/kr/app/%FF-id1018769995/")),
        Err(PermalinkError::InvalidPermalink)
    );
    assert_eq!(
        Permalink::parse_url(parts("https://www.daangn.com", "/kr/app/%EB%8B-id1018769995/")),
        Err(PermalinkError::InvalidPermalink)
    );
    // An unknown country is reported before the title is decoded.
    assert_eq!(
        Permalink::parse_url(parts("null", "/xx/app/%FF-id1018769995/")),
        Err(PermalinkError::UnknownCountry("xx".to_string()))
    );
}

#[test]
fn parse_reads_urls_of_any_scheme() {
    // An origin that is no scheme, host and port is serialised as `null`,
    // which belongs to no country.
    assert_eq!(
        Permalink::parse_str("data:/kr/app/id1018769995"),
        Ok(record(WellKnownCountry::KR, "app", "id1018769995"))
    );
    assert_eq!(
        Permalink::parse_str("file:///jp/app/id1018769995/"),
        Ok(record(WellKnownCountry::JP, "app", "id1018769995"))
    );
    // A path that does not start with a slash is no permalink.
    assert_eq!(
        Permalink::parse_str("mailto:kr/app/id1018769995"),
        Err(PermalinkError::InvalidPermalink)
    );
    assert_eq!(
        Permalink::parse_str("blob:https://www.daangn.com/kr/app/id1018769995"),
        Err(PermalinkError::InvalidPermalink)
    );
}

#[test]
fn parse_refuses_what_is_no_url() {
    for text in ["", "invalid", "/kr/app/id1018769995/", "https://", "https://a b/kr/app/x"] {
        assert!(
            matches!(Permalink::parse_str(text), Err(PermalinkError::InvalidUrl(_))),
            "{:?}",
            text
        );
    }
}

#[test]
fn parse_url_reads_origin_and_path() {
    let permalink =
        Permalink::parse_url(parts("https://www.karrotmarket.com", "/jp/about/abcdefgh")).unwrap();
    assert_eq!(permalink, record(WellKnownCountry::JP, "about", "abcdefgh"));
}

#[test]
fn parse_leaves_query_and_fragment_out() {
    let permalink =
        Permalink::parse_str("https://www.daangn.com/kr/app/id1018769995/?in=feed#top").unwrap();
    assert_eq!(permalink, record(WellKnownCountry::KR, "app", "id1018769995"));
}

#[test]
fn parse_decodes_the_title() {
    let permalink =
        Permalink::parse_str("https://www.daangn.com/kr/app/%EB%8B%B9%EA%B7%BC-a1-id1018769995")
            .unwrap();
    assert_eq!(permalink.title, Some("당근-a1".to_string()));
    let permalink =
        Permalink::parse_str("https://www.daangn.com/kr/app/abc--id1018769995").unwrap();
    assert_eq!(permalink.title, Some("abc-".to_string()));
    assert_eq!(permalink.id, "id1018769995");
}

#[test]
fn parse_takes_what_follows_the_last_dash_for_the_id() {
    let permalink =
        Permalink::parse_str("https://www.daangn.com/kr/app/abcdefgh-ijklmnop-qrstuvwx").unwrap();
    assert_eq!(permalink.title, Some("abcdefgh-ijklmnop".to_string()));
    assert_eq!(permalink.id, "qrstuvwx");
}

#[test]
fn normalize_writes_the_short_form() {
    assert_eq!(
        normalize(record(WellKnownCountry::CA, "buy-sell", "AbCd1234")),
        "https://www.karrotmarket.com/ca/buy-sell/AbCd1234/"
    );
    let mut with_more = record(WellKnownCountry::US, "app", "id1018769995");
    with_more.title = Some("a title".to_string());
    with_more.data = Some("data".to_string());
    assert_eq!(with_more.normalize(), "https://www.karrotmarket.com/us/app/id1018769995/");
}

#[test]
fn canonicalize_writes_the_long_form() {
    assert_eq!(
        canonicalize(record(WellKnownCountry::JP, "app", "id1018769995"), "ﾆｯﾎﾟﾝ No.1!".to_string()),
        "https://jp.karrotmarket.com/jp/app/%E3%83%8B%E3%83%83%E3%83%9D%E3%83%B3-no-1-id1018769995/"
    );
    assert_eq!(
        canonicalize(record(WellKnownCountry::CA, "app", "id1018769995"), String::new()),
        "https://ca.karrotmarket.com/ca/app/id1018769995/"
    );
    assert_eq!(
        canonicalize(record(WellKnownCountry::UK, "app", "id1018769995"), "?!".to_string()),
        "https://uk.karrotmarket.com/uk/app/id1018769995/"
    );
    assert_eq!(
        record(WellKnownCountry::US, "app", "ID1018769995").canonicalize("Parse, don't validate"),
        "https://us.karrotmarket.com/us/app/parse-dont-validate-id1018769995/"
    );
}

fn records() -> Vec<Permalink> {
    let mut out = vec![];
    for country in [
        WellKnownCountry::CA,
        WellKnownCountry::JP,
        WellKnownCountry::KR,
        WellKnownCountry::UK,
        WellKnownCountry::US,
    ] {
        for service_type in ["app", "about", "buy-sell", "---", "a-b"] {
            for id in ["id1018769995", "abcdefgh", "12345678", "a1b2c3d4e5f6g7h8i9"] {
                out.push(record(country, service_type, id));
            }
        }
    }
    out
}

#[test]
fn parse_of_normalize_gives_the_record_back() {
    for permalink in records() {
        let mut with_more = permalink.clone();
        with_more.title = Some("a title".to_string());
        with_more.data = Some("data".to_string());
        assert_eq!(Permalink::parse_str(&with_more.normalize()), Ok(permalink.clone()));
        let upper = record(permalink.country, &permalink.service_type, "ID1018769995");
        assert_eq!(Permalink::parse_str(&upper.normalize()), Ok(upper.clone()));
    }
}

#[test]
fn parse_of_canonicalize_gives_record_and_slug_back() {
    for permalink in records() {
        for title in [
            "당근마켓-대한민국-1등-동네-앱",
            "Parse, don't validate",
            "ﾆｯﾎﾟﾝ ㈜당근",
            "  --  ",
            "",
            "Ａ_b",
            "100%",
            "trailing-",
            "x",
        ] {
            let url = permalink.canonicalize(title);
            let slug = permalink::slugify(title);
            let mut expected = permalink.clone();
            expected.title = if slug.is_empty() { None } else { Some(slug) };
            assert_eq!(Permalink::parse_str(&url), Ok(expected), "{}", url);
        }
    }
}

#[test]
fn canonicalize_lowercases_the_id() {
    for title in ["title", "당근", ""] {
        let permalink = record(WellKnownCountry::KR, "app", "ID1018769995xY");
        let back = Permalink::parse_str(&permalink.canonicalize(title)).unwrap();
        let mut expected = record(WellKnownCountry::KR, "app", "id1018769995xy");
        expected.title = if title.is_empty() { None } else { Some(title.to_string()) };
        assert_eq!(back, expected);
    }
}
