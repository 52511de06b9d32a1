use twitter_text::entity::Type;
use twitter_text::extractor::{Extractor, ParserBackend};

// Federated mention tests (Mastodon-style @user@domain.tld)
// These tests run on all backends that support federated mentions.
fn federated_mention_backends() -> Vec<ParserBackend> {
    vec![
        ParserBackend::Pest,
        ParserBackend::External,
        ParserBackend::Nom,
    ]
}

#[test]
fn test_extract_empty_string_mentions() {
    let extractor = Extractor::new();
    let mentions = extractor.extract_mentioned_screennames("");
    assert_eq!(0, mentions.len());
}

#[test]
fn test_extract_single_mention() {
    let extractor = Extractor::new();
    let mentions = extractor.extract_mentioned_screennames("@hi");
    assert_eq!(1, mentions.len());
}

#[test]
fn test_extract_setting() {
    let mut extractor = Extractor::new();
    extractor.set_extract_url_without_protocol(false);
    assert!(!extractor.get_extract_url_without_protocol());
    extractor.set_extract_url_without_protocol(true);
    assert!(extractor.get_extract_url_without_protocol());
}

#[test]
fn test_reply_at_the_start() {
    let extractor = Extractor::new();
    let extracted = extractor.extract_reply_username("@user reply");
    assert!(extracted.is_some());
    assert_eq!("user", extracted.unwrap().value);
}

#[test]
fn test_reply_with_leading_space() {
    let extractor = Extractor::new();
    let extracted = extractor.extract_reply_username(" @user reply");
    assert!(extracted.is_some());
    assert_eq!("user", extracted.unwrap().value);
}

#[test]
fn test_mention_at_the_beginning() {
    let extractor = Extractor::new();
    let extracted = extractor.extract_mentioned_screennames("@user mention");
    assert_eq!(vec!["user"], extracted);
}

#[test]
fn test_mention_with_leading_space() {
    let extractor = Extractor::new();
    let extracted = extractor.extract_mentioned_screennames(" @user mention");
    assert_eq!(vec!["user"], extracted);
}

#[test]
fn test_mention_in_mid_text() {
    let extractor = Extractor::new();
    let extracted = extractor.extract_mentioned_screennames("mention @user here");
    assert_eq!(vec!["user"], extracted);
}

#[test]
fn test_multiple_mentions() {
    let extractor = Extractor::new();
    let extracted =
        extractor.extract_mentioned_screennames("mention @user1 here and @user2 here");
    assert_eq!(vec!["user1", "user2"], extracted);
}

#[test]
fn test_mention_with_indices() {
    let extractor = Extractor::new();
    let extracted = extractor
        .extract_mentioned_screennames_with_indices(" @user1 mention @user2 here @user3 ");
    assert_eq!(3, extracted.len());
    assert_eq!(1, extracted[0].start);
    assert_eq!(7, extracted[0].end);
    assert_eq!(16, extracted[1].start);
    assert_eq!(22, extracted[1].end);
    assert_eq!(28, extracted[2].start);
    assert_eq!(34, extracted[2].end);
}

#[test]
fn test_mention_with_supplementary_characters() {
    // U+10400 DESERET CAPITAL LETTER LONG I
    let text = "\u{10400} @mention \u{10400} @mention".to_string();
    let extractor = Extractor::new();

    // Extract with UTF-16 indices
    let extracted = extractor.extract_mentioned_screennames_with_indices(&text);
    assert_eq!(2, extracted.len());

    // First mention
    assert_eq!("mention", extracted[0].value);
    // U+10400 takes 2 UTF-16 code units (surrogate pair), then space (1), then @ (1) = index 3
    assert_eq!(3, extracted[0].start);
    // Start (3) + "@mention" (8) = 11
    assert_eq!(11, extracted[0].end);

    // Second mention
    assert_eq!("mention", extracted[1].value);
    // First mention ends at 11, space (1), U+10400 (2), space (1), @ (1) = 15
    assert_eq!(15, extracted[1].start);
    assert_eq!(23, extracted[1].end);
}

#[test]
fn test_hashtag_at_the_beginning() {
    let extractor = Extractor::new();
    let extracted = extractor.extract_hashtags("#hashtag mention");
    assert_eq!(vec!["hashtag"], extracted);
}

#[test]
fn test_hashtag_with_leading_space() {
    let extractor = Extractor::new();
    let extracted = extractor.extract_hashtags(" #hashtag mention");
    assert_eq!(vec!["hashtag"], extracted);
}

#[test]
fn test_hashtag_in_mid_text() {
    let extractor = Extractor::new();
    let extracted = extractor.extract_hashtags("mention #hashtag here");
    assert_eq!(vec!["hashtag"], extracted);
}

#[test]
fn test_multiple_hashtags() {
    let extractor = Extractor::new();
    let extracted = extractor.extract_hashtags("text #hashtag1 #hashtag2");
    assert_eq!(vec!["hashtag1", "hashtag2"], extracted);
}

#[test]
fn test_hashtag_with_indices() {
    let extractor = Extractor::new();
    let extracted =
        extractor.extract_hashtags_with_indices(" #user1 mention #user2 here #user3 ");
    assert_eq!(3, extracted.len());
    assert_eq!(1, extracted[0].start);
    assert_eq!(7, extracted[0].end);
    assert_eq!(16, extracted[1].start);
    assert_eq!(22, extracted[1].end);
    assert_eq!(28, extracted[2].start);
    assert_eq!(34, extracted[2].end);
}

#[test]
fn test_hashtag_with_supplementary_characters() {
    let text = "\u{10400} #hashtag \u{10400} #hashtag".to_string();
    let extractor = Extractor::new();

    let extracted = extractor.extract_hashtags_with_indices(&text);
    assert_eq!(2, extracted.len());

    assert_eq!("hashtag", extracted[0].value);
    assert_eq!(3, extracted[0].start);
    assert_eq!(11, extracted[0].end);

    assert_eq!("hashtag", extracted[1].value);
    assert_eq!(15, extracted[1].start);
    assert_eq!(23, extracted[1].end);
}

#[test]
fn test_url_with_indices() {
    let extractor = Extractor::new();
    let extracted =
        extractor.extract_urls_with_indices("http://t.co url https://www.twitter.com ");
    assert_eq!(2, extracted.len());
    assert_eq!(0, extracted[0].start);
    assert_eq!(11, extracted[0].end);
    assert_eq!(16, extracted[1].start);
    assert_eq!(39, extracted[1].end);
}

#[test]
fn test_url_without_protocol() {
    let extractor = Extractor::new();
    let text = "www.twitter.com, www.yahoo.co.jp, t.co/blahblah, www.poloshirts.uk.com";
    let extracted = extractor.extract_urls(text);
    assert_eq!(
        vec![
            "www.twitter.com",
            "www.yahoo.co.jp",
            "t.co/blahblah",
            "www.poloshirts.uk.com"
        ],
        extracted
    );

    let extracted_with_indices = extractor.extract_urls_with_indices(text);
    assert_eq!(4, extracted_with_indices.len());
    assert_eq!(0, extracted_with_indices[0].start);
    assert_eq!(15, extracted_with_indices[0].end);
    assert_eq!(17, extracted_with_indices[1].start);
    assert_eq!(32, extracted_with_indices[1].end);
    assert_eq!(34, extracted_with_indices[2].start);
    assert_eq!(47, extracted_with_indices[2].end);
}

#[test]
fn test_url_without_protocol_disabled() {
    let mut extractor = Extractor::new();
    extractor.set_extract_url_without_protocol(false);
    let text = "www.twitter.com, www.yahoo.co.jp, t.co/blahblah";
    let extracted = extractor.extract_urls(text);
    assert_eq!(0, extracted.len());
}

#[test]
fn test_url_followed_by_punctuations() {
    let extractor = Extractor::new();
    let text = "http://games.aarp.org/games/mahjongg-dimensions.aspx!!!!!!";
    let extracted = extractor.extract_urls(text);
    assert_eq!(
        vec!["http://games.aarp.org/games/mahjongg-dimensions.aspx"],
        extracted
    );
}

#[test]
fn test_url_with_punctuation() {
    let extractor = Extractor::new();
    let urls = vec![
        "http://www.foo.com/foo/path-with-period./",
        "http://www.foo.org.za/foo/bar/688.1",
        "http://www.foo.com/bar-path/some.stm?param1=foo;param2=P1|0||P2|0",
        "http://foo.com/bar/123/foo_&_bar/",
        "http://foo.com/bar(test)bar(test)bar(test)",
        "www.foo.com/foo/path-with-period./",
        "www.foo.org.za/foo/bar/688.1",
        "www.foo.com/bar-path/some.stm?param1=foo;param2=P1|0||P2|0",
        "foo.com/bar/123/foo_&_bar/",
    ];

    for url in urls {
        let extracted = extractor.extract_urls(url);
        assert_eq!(vec![url], extracted, "Failed to extract URL: {}", url);
    }
}

#[test]
fn test_url_with_supplementary_characters() {
    let text = "\u{10400} http://twitter.com \u{10400} http://twitter.com".to_string();
    let extractor = Extractor::new();

    let extracted = extractor.extract_urls_with_indices(&text);
    assert_eq!(2, extracted.len());

    assert_eq!("http://twitter.com", extracted[0].value);
    assert_eq!(3, extracted[0].start);
    assert_eq!(21, extracted[0].end);

    assert_eq!("http://twitter.com", extracted[1].value);
    assert_eq!(25, extracted[1].start);
    assert_eq!(43, extracted[1].end);
}

#[test]
fn test_url_with_special_cctld_without_protocol() {
    let extractor = Extractor::new();
    let text = "MLB.tv vine.co";
    let extracted = extractor.extract_urls(text);
    assert_eq!(vec!["MLB.tv", "vine.co"], extracted);

    let extracted_with_indices = extractor.extract_urls_with_indices(text);
    assert_eq!(2, extracted_with_indices.len());
    assert_eq!(0, extracted_with_indices[0].start);
    assert_eq!(6, extracted_with_indices[0].end);
    assert_eq!(7, extracted_with_indices[1].start);
    assert_eq!(14, extracted_with_indices[1].end);
}

#[test]
fn test_url_with_special_cctld_disabled() {
    let mut extractor = Extractor::new();
    extractor.set_extract_url_without_protocol(false);
    let text = "MLB.tv vine.co";
    let extracted = extractor.extract_urls(text);
    assert_eq!(0, extracted.len());
}

#[test]
fn test_url_with_unicode_tld() {
    let extractor = Extractor::new();
    // Korean TLD: 한국
    let text = "https://twitter.한국";
    let extracted = extractor.extract_urls(text);
    assert_eq!(vec!["https://twitter.한국"], extracted);
}

#[test]
fn test_url_with_trailing_cjk() {
    // The host stops where the label starts to mix scripts.
    let extractor = Extractor::new();
    let text = "test http://example.comだよね.comtest/hogehoge";
    let extracted = extractor.extract_urls(text);
    assert_eq!(vec!["http://example.com"], extracted);
}

#[test]
fn test_simple_url() {
    let extractor = Extractor::new();
    let text = "http://example.com/";
    let extracted = extractor.extract_urls(text);
    assert_eq!(vec!["http://example.com/"], extracted);
}

#[test]
fn test_federated_mention_empty_string() {
    for validator in federated_mention_backends() {
        let extractor = Extractor::with_parser_backend(validator);
        let extracted = extractor.extract_federated_mentions("");
        assert_eq!(0, extracted.len(), "Failed for {:?}", validator);
    }
}

#[test]
fn test_federated_mention_no_at_signs() {
    for validator in federated_mention_backends() {
        let extractor = Extractor::with_parser_backend(validator);
        let extracted = extractor.extract_federated_mentions("a string without at signs");
        assert_eq!(0, extracted.len(), "Failed for {:?}", validator);
    }
}

#[test]
fn test_federated_mention_simple() {
    for validator in federated_mention_backends() {
        let extractor = Extractor::with_parser_backend(validator);
        let extracted = extractor.extract_federated_mentions("@user@domain.tld");
        assert_eq!(
            vec!["@user@domain.tld"],
            extracted,
            "Failed for {:?}",
            validator
        );
    }
}

#[test]
fn test_federated_mention_in_text() {
    for validator in federated_mention_backends() {
        let extractor = Extractor::with_parser_backend(validator);
        let extracted =
            extractor.extract_federated_mentions("hello @user@mastodon.social world");
        assert_eq!(
            vec!["@user@mastodon.social"],
            extracted,
            "Failed for {:?}",
            validator
        );
    }
}

#[test]
fn test_federated_mention_with_indices() {
    for validator in federated_mention_backends() {
        let extractor = Extractor::with_parser_backend(validator);
        let extracted = extractor
            .extract_federated_mentions_with_indices("hello @user@mastodon.social world");
        assert_eq!(1, extracted.len(), "Failed for {:?}", validator);
        assert_eq!(
            "@user@mastodon.social", extracted[0].value,
            "Failed for {:?}",
            validator
        );
        assert_eq!(6, extracted[0].start, "Failed for {:?}", validator);
        assert_eq!(27, extracted[0].end, "Failed for {:?}", validator);
    }
}

#[test]
fn test_federated_mention_complex_username() {
    for validator in federated_mention_backends() {
        let extractor = Extractor::with_parser_backend(validator);
        // Username with dots and hyphens
        let extracted = extractor.extract_federated_mentions("@user.name-test@domain.tld");
        assert_eq!(
            vec!["@user.name-test@domain.tld"],
            extracted,
            "Failed for {:?}",
            validator
        );
    }
}

#[test]
fn test_federated_mention_complex_domain() {
    for validator in federated_mention_backends() {
        let extractor = Extractor::with_parser_backend(validator);
        // Domain with subdomains
        let extracted = extractor.extract_federated_mentions("@user@sub.domain.example.com");
        assert_eq!(
            vec!["@user@sub.domain.example.com"],
            extracted,
            "Failed for {:?}",
            validator
        );
    }
}

#[test]
fn test_federated_mention_multiple() {
    for validator in federated_mention_backends() {
        let extractor = Extractor::with_parser_backend(validator);
        let extracted =
            extractor.extract_federated_mentions("@user1@domain1.com and @user2@domain2.org");
        assert_eq!(
            vec!["@user1@domain1.com", "@user2@domain2.org"],
            extracted,
            "Failed for {:?}",
            validator
        );
    }
}

#[test]
fn test_federated_mention_with_underscore() {
    for validator in federated_mention_backends() {
        let extractor = Extractor::with_parser_backend(validator);
        let extracted = extractor.extract_federated_mentions("@user_name@domain.tld");
        assert_eq!(
            vec!["@user_name@domain.tld"],
            extracted,
            "Failed for {:?}",
            validator
        );
    }
}

#[test]
fn test_federated_mention_fullwidth_at() {
    for validator in federated_mention_backends() {
        let extractor = Extractor::with_parser_backend(validator);
        // Full-width @ (U+FF20) as prefix
        let extracted = extractor.extract_federated_mentions("＠user@domain.tld");
        assert_eq!(
            vec!["＠user@domain.tld"],
            extracted,
            "Failed for {:?}",
            validator
        );
    }
}

#[test]
fn test_local_mention_included_in_federated() {
    // extract_federated_mentions now returns both regular and federated mentions
    // (matching Mastodon's behavior)
    for validator in federated_mention_backends() {
        let extractor = Extractor::with_parser_backend(validator);
        let extracted = extractor.extract_federated_mentions("@localuser");
        assert_eq!(1, extracted.len(), "Failed for {:?}", validator);
        assert_eq!("localuser", extracted[0], "Failed for {:?}", validator);
    }
}

#[test]
fn test_mentions_with_federated_style_text() {
    // extract_mentions should ignore federated-style mentions (@user@domain)
    // Only regular mentions are extracted
    for validator in federated_mention_backends() {
        let extractor = Extractor::with_parser_backend(validator);
        let text = "test @sayrer @user1@domain1.com and @user2@domain2.org";
        let mentions = extractor.extract_mentions_or_lists_with_indices(text);
        // Only @sayrer is extracted; @user1@domain1.com and @user2@domain2.org are ignored
        assert_eq!(1, mentions.len(), "Failed for {:?}", validator);
        assert_eq!("sayrer", mentions[0].value, "Failed for {:?}", validator);
        assert_eq!(5, mentions[0].start, "Failed for {:?}", validator);
        assert_eq!(12, mentions[0].end, "Failed for {:?}", validator);
    }
}

#[test]
fn test_extract_federated_mentions_mixed_text() {
    // extract_federated_mentions returns both regular and federated mentions
    // (matching Mastodon's behavior)
    for validator in federated_mention_backends() {
        let extractor = Extractor::with_parser_backend(validator);
        let text = "test @sayrer @user1@domain1.com and @user2@domain2.org";
        let federated = extractor.extract_federated_mentions(text);
        // Should get all three: @sayrer (regular) and the two federated ones
        assert_eq!(3, federated.len(), "Failed for {:?}", validator);
        assert_eq!("sayrer", federated[0], "Failed for {:?}", validator);
        assert_eq!(
            "@user1@domain1.com", federated[1],
            "Failed for {:?}",
            validator
        );
        assert_eq!(
            "@user2@domain2.org", federated[2],
            "Failed for {:?}",
            validator
        );
    }
}

#[test]
fn test_extract_entities_excludes_federated_mentions() {
    // extract_entities_with_indices should return all entity types EXCEPT federated mentions
    // This matches Twitter's behavior where federated mentions are a Mastodon extension
    for validator in federated_mention_backends() {
        let extractor = Extractor::with_parser_backend(validator);
        let text = "Check https://example.com @user @user/list @fed@mastodon.social #tag $CASH";

        let entities = extractor.extract_entities_with_indices(text);

        // Should have 5 entities: URL, mention, list, hashtag, cashtag (no federated mention)
        assert_eq!(
            5,
            entities.len(),
            "Expected 5 entities for {:?}, got {:?}",
            validator,
            entities
        );

        // Verify each entity type is present (list is also Type::MENTION)
        let url = entities.iter().find(|e| e.t == Type::URL).unwrap();
        assert_eq!(
            "https://example.com", url.value,
            "Failed for {:?}",
            validator
        );

        // Find the two mentions (regular and list)
        let mentions: Vec<_> = entities.iter().filter(|e| e.t == Type::MENTION).collect();
        assert_eq!(2, mentions.len(), "Expected 2 mentions for {:?}", validator);

        // Regular mention (empty list_slug)
        let regular_mention = mentions.iter().find(|e| e.list_slug.is_empty()).unwrap();
        assert_eq!("user", regular_mention.value, "Failed for {:?}", validator);

        // List mention (non-empty list_slug)
        let list_mention = mentions.iter().find(|e| !e.list_slug.is_empty()).unwrap();
        assert_eq!("user", list_mention.value, "Failed for {:?}", validator);
        assert_eq!(
            "/list", list_mention.list_slug,
            "Failed for {:?}",
            validator
        );

        let hashtag = entities.iter().find(|e| e.t == Type::HASHTAG).unwrap();
        assert_eq!("tag", hashtag.value, "Failed for {:?}", validator);

        let cashtag = entities.iter().find(|e| e.t == Type::CASHTAG).unwrap();
        assert_eq!("CASH", cashtag.value, "Failed for {:?}", validator);

        // Verify federated mention is NOT present
        assert!(
            !entities.iter().any(|e| e.t == Type::FEDERATEDMENTION),
            "FEDERATEDMENTION should not be in extract_entities_with_indices for {:?}",
            validator
        );
    }
}

#[test]
fn test_extract_entities_with_indices_federated() {
    // Test that extract_entities_with_indices_federated includes all entity types
    // including federated mentions
    for validator in federated_mention_backends() {
        let extractor = Extractor::with_parser_backend(validator);
        let text = "Check https://example.com @user @user/list @fed@mastodon.social #tag $CASH";

        let entities = extractor.extract_entities_with_indices_federated(text);

        // Should have 6 entities: URL, mention, list, federated mention, hashtag, cashtag
        assert_eq!(
            6,
            entities.len(),
            "Expected 6 entities for {:?}, got {:?}",
            validator,
            entities
        );

        // Verify each entity type is present
        let url = entities.iter().find(|e| e.t == Type::URL).unwrap();
        assert_eq!(
            "https://example.com", url.value,
            "Failed for {:?}",
            validator
        );

        // Find mentions (regular and list)
        let mentions: Vec<_> = entities.iter().filter(|e| e.t == Type::MENTION).collect();
        assert_eq!(2, mentions.len(), "Expected 2 mentions for {:?}", validator);

        // Federated mention IS present
        let federated = entities
            .iter()
            .find(|e| e.t == Type::FEDERATEDMENTION)
            .unwrap();
        assert_eq!(
            "@fed@mastodon.social", federated.value,
            "Failed for {:?}",
            validator
        );

        let hashtag = entities.iter().find(|e| e.t == Type::HASHTAG).unwrap();
        assert_eq!("tag", hashtag.value, "Failed for {:?}", validator);

        let cashtag = entities.iter().find(|e| e.t == Type::CASHTAG).unwrap();
        assert_eq!("CASH", cashtag.value, "Failed for {:?}", validator);
    }
}
