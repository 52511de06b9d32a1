use twitter_text::scanner::{NomEntity, NomEntityType};
use twitter_text::url::validate_url_nom;
use twitter_text::domain::{find_script_boundary, find_valid_domain_end, find_valid_tld_boundary, has_script_mixing};
use twitter_text::extractor::{Extractor, ParserBackend};
use twitter_text::tlds::is_valid_tld;

#[test]
fn test_script_boundary_unicode_domain() {
    // "twitter.한국" - should NOT have script mixing since dot separates them
    let domain = "twitter.한국";
    let valid_end = find_valid_domain_end(domain);
    println!(
        "Domain: {} -> valid_end: {} (len: {})",
        domain,
        valid_end,
        domain.len()
    );
    assert_eq!(
        valid_end,
        domain.len(),
        "Unicode TLD domains should be fully valid"
    );
}

#[test]
fn test_script_boundary_mixed_label() {
    // "comだよね" - ASCII then non-ASCII in same label
    let label = "comだよね";
    assert!(
        has_script_mixing(label),
        "comだよね should have script mixing"
    );
    let boundary = find_script_boundary(label);
    println!("Label: {} -> boundary: {}", label, boundary);
    assert_eq!(boundary, 3, "Should stop after 'com'");
}

#[test]
fn test_vermogen_tld() {
    let tld = "vermögensberatung";
    println!("Testing TLD: {} (len: {})", tld, tld.len());
    println!("Is valid TLD: {}", is_valid_tld(tld));
    println!("Lowercase: {}", is_valid_tld(&tld.to_lowercase()));

    let extractor = Extractor::new();
    let text = "https://twitter.vermögensberatung";
    println!("Testing URL: {}", text);
    let urls = extractor.extract_urls(text);
    println!("Extracted: {:?}", urls);
}

#[test]
fn test_uwp_extraction() {
    let extractor = Extractor::new();
    let text = "foo.baz foo.co.jp www.xxxxxxx.baz www.foo.co.uk wwwww.xxxxxxx foo.comm foo.somecom foo.govedu foo.jp";
    println!("Testing: {}", text);
    let urls = extractor.extract_urls(text);
    println!("Extracted {} URLs:", urls.len());
    for url in &urls {
        println!("  {}", url);
    }
    println!("Expected: foo.co.jp, www.foo.co.uk, foo.jp");
}

#[test]
fn test_japanese_uwp() {
    let extractor = Extractor::new();
    let text = "example.comてすとですtwitter.みんなです";
    println!("Testing: {}", text);
    let urls = extractor.extract_urls(text);
    println!("Extracted {} URLs:", urls.len());
    for url in &urls {
        println!("  {}", url);
    }
    println!("Expected: example.com, twitter.みんな");
}

#[test]
fn test_idn_mixed_domain() {
    let extractor = Extractor::new();
    let text = "http://exampleこれは日本語です.com/path/index.html";
    println!("Testing: {}", text);
    let urls = extractor.extract_urls(text);
    println!("Extracted {} URLs:", urls.len());
    for url in &urls {
        println!("  {}", url);
    }
}

#[test]
fn test_trailing_cjk() {
    let extractor = Extractor::new();
    let text = "http://example.comだよね.comtest/hoge";
    println!("Testing: {}", text);
    let urls = extractor.extract_urls(text);
    println!("Extracted {} URLs:", urls.len());
    for url in &urls {
        println!("  {}", url);
    }
    println!("Expected: http://example.com");
}

#[test]
fn test_punycode_idn_url() {
    let extractor = Extractor::new();
    let text = "See also: http://xn--80abe5aohbnkjb.xn--p1ai/";
    println!("Testing: {}", text);
    let urls = extractor.extract_urls(text);
    println!("Extracted {} URLs:", urls.len());
    for url in &urls {
        println!("  URL: '{}'", url);
    }
    assert_eq!(urls.len(), 1);
    assert_eq!(urls[0], "http://xn--80abe5aohbnkjb.xn--p1ai/");
}

#[test]
fn test_msdn_url() {
    let extractor = Extractor::new();
    let text =
        "http://msdn.microsoft.com/ja-jp/library/system.net.httpwebrequest(v=VS.100).aspx";
    println!("Testing: {}", text);
    let urls = extractor.extract_urls(text);
    println!("Extracted {} URLs:", urls.len());
    for url in &urls {
        println!("  {}", url);
    }
}

#[test]
fn test_trailing_dash() {
    let extractor = Extractor::new();
    let text = "test http://trailingdash.twitter-.com";
    println!("Testing: {}", text);
    let urls = extractor.extract_urls(text);
    println!("Extracted {} URLs:", urls.len());
    for url in &urls {
        println!("  {}", url);
    }
    println!("Expected: 0 URLs");
}

#[test]
fn test_trailing_dash_debug() {
    let domain = "trailingdash.twitter-.com";
    println!("Domain: {}", domain);

    // Find dots
    let dot_positions: Vec<usize> = domain
        .char_indices()
        .filter(|(_, c)| *c == '.')
        .map(|(i, _)| i)
        .collect();
    println!("Dot positions: {:?}", dot_positions);

    // Check for script mixing
    let has_mixing = domain.split('.').any(has_script_mixing);
    println!("Has script mixing: {}", has_mixing);

    // Check each segment
    for &dot_pos in dot_positions.iter().rev() {
        let after_dot = &domain[dot_pos + 1..];
        let segment_end = after_dot.find('.').unwrap_or(after_dot.len());
        let segment = &after_dot[..segment_end];
        println!(
            "At dot {}: after_dot='{}', segment='{}'",
            dot_pos, after_dot, segment
        );
        println!(
            "  is_valid_tld('{}') = {}",
            segment.to_lowercase(),
            is_valid_tld(&segment.to_lowercase())
        );
    }

    let result = find_valid_tld_boundary(domain, false);
    println!("Result: {:?}", result);
}

#[test]
fn test_parser_backend_external_validates_tlds() {
    // External backend should reject invalid TLDs
    let extractor = Extractor::with_parser_backend(ParserBackend::External);

    // Valid TLD should be extracted
    let urls = extractor.extract_urls("Check out http://example.com/path");
    assert_eq!(urls.len(), 1);
    assert_eq!(urls[0], "http://example.com/path");

    // URL with valid punycode TLD
    let urls = extractor.extract_urls("See http://xn--80abe5aohbnkjb.xn--p1ai/");
    assert_eq!(urls.len(), 1);
}

#[test]
fn test_parser_backend_pest_trusts_grammar() {
    // Pest backend trusts whatever the grammar matches
    let extractor = Extractor::with_parser_backend(ParserBackend::Pest);

    // With the permissive grammar, this will also match
    let urls = extractor.extract_urls("Check out http://example.com/path");
    assert_eq!(urls.len(), 1);
    assert_eq!(urls[0], "http://example.com/path");
}

#[test]
fn test_parser_backend_default_is_nom() {
    // Default should be Nom
    assert_eq!(ParserBackend::default(), ParserBackend::Nom);

    // New extractor should use Nom by default
    let extractor = Extractor::new();
    assert_eq!(extractor.get_parser_backend(), ParserBackend::Nom);
}

#[test]
fn test_all_backends_produce_same_results() {
    // Test that all three backends produce identical results
    let external = Extractor::with_parser_backend(ParserBackend::External);
    let pest = Extractor::with_parser_backend(ParserBackend::Pest);
    let nom = Extractor::with_parser_backend(ParserBackend::Nom);

    let test_cases = [
        "Check out http://example.com/path",
        "Visit https://twitter.com and https://github.com",
        "See http://xn--80abe5aohbnkjb.xn--p1ai/",
        "URL without protocol: example.com/page",
        "Japanese TLD: http://example.みんな/path",
        "Multiple: foo.co.jp and bar.co.uk are valid",
        "@mention and #hashtag with http://test.org",
        // Hyphenated TLD case
        "text http://domain.com-that-you-should-have-put-a-space-after",
        // Underscore in subdomain (valid)
        "test http://sub_domain-dash.twitter.com",
        // Underscore before TLD (invalid - should NOT extract)
        "text http://domain-dash_2314352345_dfasd.foo-cow_4352.com",
        // Leading dash in subdomain (invalid)
        "test http://-leadingdash.twitter.com",
        // CJK characters surrounding URLs
        "http://twitter.com/これは日本語です。example.com中国語http://t.co/abcde한국twitter.comテストexample2.comテストhttp://twitter.com/abcde",
        // URLs in hashtag or mention (should NOT extract)
        "#test.com @test.com #http://test.com @http://test.com #t.co/abcde @t.co/abcde",
        // Domain followed by Japanese characters
        "example.comてすとですtwitter.みんなです",
        // URL preceded by $ (should NOT extract)
        "$http://twitter.com $twitter.com $http://t.co/abcde $t.co/abcde $t.co $TVI.CA $RBS.CA",
        // Email addresses (should NOT extract)
        "john.doe.gov@mail.com",
        "john.doe.jp@mail.com",
        // URLs with trailing punctuation (should extract URL without punctuation)
        "text http://example.com.",
        "text http://example.com?",
        "text http://example.com!",
    ];

    for text in test_cases {
        let external_urls = external.extract_urls(text);
        let pest_urls = pest.extract_urls(text);
        let nom_urls = nom.extract_urls(text);

        assert_eq!(
            external_urls, pest_urls,
            "External vs Pest differ on: {}\nExternal: {:?}\nPest: {:?}",
            text, external_urls, pest_urls
        );
        assert_eq!(
            external_urls, nom_urls,
            "External vs Nom differ on: {}\nExternal: {:?}\nNom: {:?}",
            text, external_urls, nom_urls
        );
    }
}

#[test]
fn test_pest_backend_extracts_punycode_urls() {
    let extractor = Extractor::with_parser_backend(ParserBackend::Pest);

    // Punycode URL should be extracted
    let urls = extractor.extract_urls("See http://xn--80abe5aohbnkjb.xn--p1ai/");
    assert_eq!(urls.len(), 1, "Pest backend should extract punycode URLs");
    assert_eq!(urls[0], "http://xn--80abe5aohbnkjb.xn--p1ai/");
}

#[test]
fn test_invalid_tld_not_extracted() {
    // URLs with invalid TLDs like ".sayrer" should NOT be extracted
    // URLs with valid TLDs like ".co.jp" SHOULD be extracted
    let extractor = Extractor::new();

    // Invalid TLD ".sayrer" - should NOT be extracted
    let urls = extractor.extract_urls("http://example.sayrer");
    assert!(
        urls.is_empty(),
        "http://example.sayrer should NOT be extracted (invalid TLD .sayrer)"
    );

    let urls = extractor.extract_urls("https://example.sayrer");
    assert!(
        urls.is_empty(),
        "https://example.sayrer should NOT be extracted (invalid TLD .sayrer)"
    );

    let urls = extractor.extract_urls("example.sayrer");
    assert!(
        urls.is_empty(),
        "example.sayrer should NOT be extracted (invalid TLD .sayrer)"
    );

    // Valid TLD ".co.jp" - SHOULD be extracted
    let urls = extractor.extract_urls("http://example.co.jp");
    assert_eq!(
        urls,
        vec!["http://example.co.jp"],
        "http://example.co.jp SHOULD be extracted (valid TLD .jp)"
    );

    let urls = extractor.extract_urls("https://example.co.jp");
    assert_eq!(
        urls,
        vec!["https://example.co.jp"],
        "https://example.co.jp SHOULD be extracted (valid TLD .jp)"
    );

    let urls = extractor.extract_urls("example.co.jp");
    assert_eq!(
        urls,
        vec!["example.co.jp"],
        "example.co.jp SHOULD be extracted (valid TLD .jp)"
    );

    // Test all backends produce the same results
    for backend in [
        ParserBackend::Nom,
        ParserBackend::External,
        ParserBackend::Pest,
    ] {
        let extractor = Extractor::with_parser_backend(backend);

        // Invalid TLD
        let urls = extractor.extract_urls("http://example.sayrer");
        assert!(
            urls.is_empty(),
            "{:?}: http://example.sayrer should NOT be extracted",
            backend
        );

        let urls = extractor.extract_urls("https://example.sayrer");
        assert!(
            urls.is_empty(),
            "{:?}: https://example.sayrer should NOT be extracted",
            backend
        );

        let urls = extractor.extract_urls("example.sayrer");
        assert!(
            urls.is_empty(),
            "{:?}: example.sayrer should NOT be extracted",
            backend
        );

        // Valid TLD
        let urls = extractor.extract_urls("http://example.co.jp");
        assert_eq!(
            urls,
            vec!["http://example.co.jp"],
            "{:?}: http://example.co.jp SHOULD be extracted",
            backend
        );

        let urls = extractor.extract_urls("https://example.co.jp");
        assert_eq!(
            urls,
            vec!["https://example.co.jp"],
            "{:?}: https://example.co.jp SHOULD be extracted",
            backend
        );

        let urls = extractor.extract_urls("example.co.jp");
        assert_eq!(
            urls,
            vec!["example.co.jp"],
            "{:?}: example.co.jp SHOULD be extracted",
            backend
        );
    }
}

#[test]
fn test_punycode_mixed() {
    let uts46 = idna::uts46::Uts46::new();

    // The problematic domain
    let domain = "example.comだよね.comtest";
    println!("Testing domain: {}", domain);
    let result = uts46.to_ascii(
        domain.as_bytes(),
        idna::uts46::AsciiDenyList::EMPTY,
        idna::uts46::Hyphens::Allow,
        idna::uts46::DnsLength::Verify,
    );
    println!("Result: {:?}", result);

    // Just the label
    let label = "comだよね";
    println!("\nTesting label: {}", label);
    let result2 = uts46.to_ascii(
        label.as_bytes(),
        idna::uts46::AsciiDenyList::EMPTY,
        idna::uts46::Hyphens::Allow,
        idna::uts46::DnsLength::Verify,
    );
    println!("Result: {:?}", result2);
}

#[test]
fn test_punycode_trailingdash_twitter() {
    let uts46 = idna::uts46::Uts46::new();

    let domain = "trailingdash.twitter";
    println!("Testing domain: {}", domain);
    let result = uts46.to_ascii(
        domain.as_bytes(),
        idna::uts46::AsciiDenyList::EMPTY,
        idna::uts46::Hyphens::Allow,
        idna::uts46::DnsLength::Verify,
    );
    println!("Result: {:?}", result);

    let domain2 = "trailingdash.tw";
    println!("\nTesting domain: {}", domain2);
    let result2 = uts46.to_ascii(
        domain2.as_bytes(),
        idna::uts46::AsciiDenyList::EMPTY,
        idna::uts46::Hyphens::Allow,
        idna::uts46::DnsLength::Verify,
    );
    println!("Result: {:?}", result2);
}

#[test]
fn test_nom_hyphenated_tld_debug() {
    let text = "text http://domain-dash_2314352345_dfasd.foo-cow_4352.com";
    println!("Input: {}", text);

    let v: Vec<char> = text.chars().collect();
    let nom_entities = twitter_text::scanner::parse_tweet(&v);
    println!("Nom entities: {:?}", nom_entities);

    for entity in &nom_entities {
        println!(
            "Entity: {:?} host_start={:?} host_end={:?}",
            entity.entity_type, entity.host_start, entity.host_end
        );

        if entity.entity_type == twitter_text::scanner::NomEntityType::Url {
            let domain: String = v[entity.host_start..entity.host_end].iter().collect();
            println!("Domain extracted: '{}'", domain);

            let boundary = find_valid_tld_boundary(&domain, false);
            println!("find_valid_tld_boundary result: {:?}", boundary);

            let trim_result = twitter_text::url::validate_url_nom(text, &v, entity, false);
            println!("validate_url_nom result: {:?}", trim_result);
        }
    }

    let extractor = Extractor::with_parser_backend(ParserBackend::Nom);
    let urls = extractor.extract_urls(text);
    println!("Extracted URLs: {:?}", urls);

    let external = Extractor::with_parser_backend(ParserBackend::External);
    let external_urls = external.extract_urls(text);
    println!("External URLs: {:?}", external_urls);
}

#[test]
fn misplaced_hosts_are_not_valid() {
    let text = "http://example.com";
    let v: Vec<char> = text.chars().collect();
    let good = NomEntity { entity_type: NomEntityType::Url, start: 0, end: 18, host_start: 7, host_end: 18 };
    assert_eq!(validate_url_nom(text, &v, &good, false), Some(0));
    let past_end = NomEntity { host_end: 19, end: 18, ..good };
    assert_eq!(validate_url_nom(text, &v, &past_end, false), None);
    let shorter = NomEntity { end: 12, ..good };
    assert_eq!(validate_url_nom(text, &v, &shorter, false), None);
    let crossed = NomEntity { host_start: 15, host_end: 10, ..good };
    assert_eq!(validate_url_nom(text, &v, &crossed, false), None);
    let cut = NomEntity { entity_type: NomEntityType::Url, start: 0, end: 22, host_start: 7, host_end: 22 };
    let text2 = "http://example.com.zzz";
    let v2: Vec<char> = text2.chars().collect();
    assert_eq!(validate_url_nom(text2, &v2, &cut, false), Some(4));
}
