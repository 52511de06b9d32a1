use twitter_text::config::{config_v1, config_v3, Configuration, Range, WeightedRange};
use twitter_text::entity::Type;
use twitter_text::extractor::Extractor;
use twitter_text::ffi::{ranges_of, set_ranges, TwitterTextRange, TwitterTextWeightedRange};
use twitter_text::ruby::RubyRange;
use twitter_text::validating::{calculate_length, ValidatingExtractor};
use twitter_text::{parse, try_parse, TwitterTextParseResults};

#[test]
fn empty_text_gives_empty_results() {
    let r = parse("", &config_v3(), false);
    assert_eq!(r, TwitterTextParseResults::empty());
    assert_eq!(r.weighted_length, 0);
    assert_eq!(r.permillage, 0);
    assert!(!r.is_valid);
    assert_eq!(r.display_text_range, Range::new(-1, -1));
    assert_eq!(r.valid_text_range, Range::new(-1, -1));
}

#[test]
fn invalid_character_makes_text_invalid() {
    let r = parse("abc\u{FFFE}def", &config_v3(), false);
    assert!(!r.is_valid);
    // The invalid character is weighed like any other character: it lies
    // outside the ranges and takes the default weight.
    assert_eq!(r.weighted_length, 8);
    let r = parse("abc\u{FEFF}", &config_v3(), false);
    assert!(!r.is_valid);
    let r = parse("abcdef", &config_v3(), false);
    assert!(r.is_valid);
}

#[test]
fn permillage_is_relative_to_the_maximum() {
    let r = parse("hello", &config_v3(), false);
    assert_eq!(r.weighted_length, 5);
    assert_eq!(r.permillage, 17);
    assert_eq!(r.display_text_range, Range::new(0, 4));
    assert_eq!(r.valid_text_range, Range::new(0, 4));
}

#[test]
fn limit_is_inclusive() {
    let at_limit = "a".repeat(280);
    let r = parse(&at_limit, &config_v3(), false);
    assert!(r.is_valid);
    assert_eq!(r.weighted_length, 280);
    assert_eq!(r.permillage, 1000);

    let over = "a".repeat(300);
    let r = parse(&over, &config_v3(), false);
    assert!(!r.is_valid);
    assert_eq!(r.weighted_length, 300);
    assert_eq!(r.permillage, 1071);
    assert_eq!(r.display_text_range, Range::new(0, 299));
    // The valid range stops at the last character within the limit.
    assert_eq!(r.valid_text_range, Range::new(0, 279));
}

#[test]
fn display_range_covers_the_original_text() {
    // "e" followed by a combining acute accent normalizes to one character.
    let r = parse("e\u{301}", &config_v3(), false);
    assert_eq!(r.weighted_length, 1);
    assert_eq!(r.display_text_range, Range::new(0, 1));
    assert!(r.is_valid);
}

#[test]
fn prep_input_normalizes_and_measures() {
    let config = config_v3();
    let mut extractor = ValidatingExtractor::new(&config);
    let normalized = extractor.prep_input("e\u{301}x");
    assert_eq!(normalized, "\u{e9}x");
    let same = extractor.prep_input("plain");
    assert_eq!(same, "plain");
}

#[test]
fn calculate_length_counts_utf16_and_characters() {
    assert_eq!(calculate_length("a\u{10400}b"), (4, 3));
    assert_eq!(calculate_length(""), (0, 0));
}

#[test]
fn urls_weigh_the_configured_length() {
    let text = "see https://example.com/a/very/long/path/indeed";
    let with_urls = parse(text, &config_v3(), true);
    // "see " weighs 4, the URL weighs 23.
    assert_eq!(with_urls.weighted_length, 27);
    let without = parse(text, &config_v3(), false);
    assert_eq!(without.weighted_length, text.chars().count() as i32);
}

#[test]
fn no_ranges_weigh_the_default_weight() {
    let config = config_v1();
    let r = parse("日本語のテキスト", &config, false);
    assert_eq!(r.weighted_length, 8);
    assert_eq!(r.permillage, 57);
}

#[test]
fn transliteration_keeps_the_weight() {
    let config = Configuration {
        version: 3,
        max_weighted_tweet_length: 280,
        scale: 100,
        default_weight: 200,
        transformed_url_length: 23,
        emoji_parsing_enabled: false,
        ranges: vec![WeightedRange::new(0, 127, 100), WeightedRange::new(5792, 5887, 100)],
    };
    let a = parse("abc def", &config, false);
    let b = parse("ᚨᛒᚲ ᛞᛖᚠ", &config, false);
    assert_eq!(a.weighted_length, 7);
    assert_eq!(a.weighted_length, b.weighted_length);
}

#[test]
fn try_parse_reports_what_cannot_be_computed() {
    let mut config = config_v3();
    assert_eq!(try_parse("hello", &config, false), Some(parse("hello", &config, false)));
    config.scale = 0;
    assert_eq!(try_parse("hello", &config, false), None);
    // Empty text divides by nothing.
    assert_eq!(try_parse("", &config, false), Some(TwitterTextParseResults::empty()));
    config.scale = 100;
    config.max_weighted_tweet_length = 0;
    assert_eq!(try_parse("hello", &config, false), None);
}

#[test]
fn negative_scale_rounds_toward_zero() {
    let mut config = config_v1();
    config.scale = -2;
    let r = parse("abc", &config, false);
    // 3 / -2 rounds toward zero.
    assert_eq!(r.weighted_length, -1);
    assert!(r.is_valid);
}

#[test]
fn entities_are_ordered_and_within_the_text() {
    let extractor = Extractor::new();
    let text = "#a @b $CD http://example.com #e";
    let entities = extractor.extract_entities_with_indices(text);
    assert_eq!(entities.len(), 5);
    let len = text.encode_utf16().count() as i32;
    for w in entities.windows(2) {
        assert!(w[0].end <= w[1].start);
    }
    for e in &entities {
        assert!(0 <= e.start && e.start <= e.end && e.end <= len);
    }
    assert_eq!(entities[3].t, Type::URL);
    assert_eq!(entities[3].start, 10);
    assert_eq!(entities[3].end, 28);
}

#[test]
fn mentions_are_the_local_part_of_federated_mentions() {
    let extractor = Extractor::new();
    let text = "hi @alice and @bob@example.social and @carol";
    let mentions = extractor.extract_mentioned_screennames_with_indices(text);
    let federated = extractor.extract_federated_mentions_with_indices(text);
    let local: Vec<_> = federated.iter().filter(|e| e.t == Type::MENTION).collect();
    assert_eq!(mentions.len(), local.len());
    for (m, l) in mentions.iter().zip(local.iter()) {
        assert_eq!(m.value, l.value);
        assert_eq!(m.start, l.start);
        assert_eq!(m.end, l.end);
    }
    assert_eq!(federated.len(), 3);
}

#[test]
fn entities_without_federated_are_a_filter() {
    let extractor = Extractor::new();
    let text = "@a@b.com @c #d";
    let all = extractor.extract_entities_with_indices_federated(text);
    let some = extractor.extract_entities_with_indices(text);
    let kept: Vec<_> = all.iter().filter(|e| e.t != Type::FEDERATEDMENTION).collect();
    assert_eq!(some.len(), kept.len());
    for (a, b) in some.iter().zip(kept.iter()) {
        assert_eq!(a.value, b.value);
        assert_eq!(a.t, b.t);
    }
}

#[test]
fn no_sign_no_entities() {
    let extractor = Extractor::new();
    let text = "nothing to see here, user at example dot com";
    assert!(extractor.extract_federated_mentions_with_indices(text).is_empty());
    assert!(extractor.extract_hashtags_with_indices(text).is_empty());
    assert!(extractor.extract_cashtags_with_indices(text).is_empty());
}

#[test]
fn values_match_entities() {
    let extractor = Extractor::new();
    let text = "#one and #two, also www.example.com";
    let values = extractor.extract_hashtags(text);
    let entities = extractor.extract_hashtags_with_indices(text);
    let from_entities: Vec<String> = entities.iter().map(|e| e.value.clone()).collect();
    assert_eq!(values, from_entities);
    assert_eq!(values, vec!["one", "two"]);
}

#[test]
fn validating_extractor_early_exit_gives_empty_results() {
    let config = config_v3();
    let text = "no tags here";
    let extractor = ValidatingExtractor::new_with_nfc_input(&config, text);
    let r = extractor.extract_hashtags_with_indices(text);
    assert!(r.entities.is_empty());
    assert_eq!(r.parse_results, TwitterTextParseResults::empty());
    let scan = extractor.extract_scan(text);
    assert_eq!(scan.parse_results.weighted_length, 12);
    assert!(scan.parse_results.is_valid);
}

#[test]
fn validating_extractor_reply_username() {
    let config = config_v3();
    let text = " @user reply #tag";
    let extractor = ValidatingExtractor::new_with_nfc_input(&config, text);
    let r = extractor.extract_reply_username(text);
    let mention = r.mention.unwrap();
    assert_eq!(mention.value, "user");
    assert_eq!(mention.t, Type::MENTION);
    assert_eq!(mention.start, 1);
    assert_eq!(mention.end, 6);
    assert_eq!(r.parse_results.weighted_length, 17);
    assert!(r.parse_results.is_valid);

    let not_reply = extractor.extract_reply_username("hello @user");
    assert!(not_reply.mention.is_none());
    assert_eq!(not_reply.parse_results, TwitterTextParseResults::empty());
}

#[test]
fn validating_extractor_weighs_urls_whole() {
    let config = config_v3();
    let text = "go to https://twitter.com/some/long/path now";
    let extractor = ValidatingExtractor::new_with_nfc_input(&config, text);
    let r = extractor.extract_urls_with_indices(text);
    assert_eq!(r.entities.len(), 1);
    assert_eq!(r.entities[0].value, "https://twitter.com/some/long/path");
    assert_eq!(r.parse_results.weighted_length, 6 + 23 + 4);
    assert!(extractor.can_extract(text, twitter_text::extractor::Selector {
        urls: true,
        urls_without_protocol: true,
        hashtags: false,
        cashtags: false,
        mentions: false,
        lists: false,
        federated: false,
    }));
}

#[test]
fn emoji_weigh_the_default_weight_once() {
    let config = config_v3();
    let r = parse("👍🏽", &config, false);
    assert_eq!(r.weighted_length, 2);
    let mut off = config_v3();
    off.emoji_parsing_enabled = false;
    let r = parse("👍🏽", &off, false);
    assert_eq!(r.weighted_length, 4);
}

#[test]
fn idn_urls_are_checked_in_ascii_form() {
    // The host has an ASCII form, so the URL is kept.
    let extractor = Extractor::new();
    let urls = extractor.extract_urls("visit https://bücher.de today");
    assert_eq!(urls, vec!["https://bücher.de"]);
}

#[test]
fn ffi_conversions_round_trip() {
    let r = Range::new(3, 9);
    let c = TwitterTextRange::from(r);
    assert_eq!(c.start, 3);
    assert_eq!(c.end, 9);
    assert_eq!(Range::from(c), r);
    let w = WeightedRange::new(1, 2, 300);
    let cw = TwitterTextWeightedRange::from(w);
    assert_eq!(cw.weight, 300);
    assert_eq!(WeightedRange::from(cw), w);

    let parsed = parse("hi", &config_v3(), false);
    let c_results = twitter_text::ffi::TwitterTextParseResults::from(parsed);
    assert_eq!(c_results.weighted_length, 2);
    assert_eq!(c_results.display_text_range.end, 1);
}

#[test]
fn ffi_ranges_get_and_set() {
    let mut config = config_v3();
    let array = ranges_of(&config);
    assert_eq!(array.length, 4);
    assert_eq!(array.ranges[0].range.end, 4351);
    set_ranges(&mut config, &[]);
    assert_eq!(config.ranges.len(), 4);
    let one = TwitterTextWeightedRange { range: TwitterTextRange { start: 0, end: 10 }, weight: 50 };
    set_ranges(&mut config, &[one]);
    assert_eq!(config.ranges, vec![WeightedRange::new(0, 10, 50)]);
    assert!(ranges_of(&config_v1()).ranges.is_empty());
}

#[test]
fn ruby_range_reads_and_sets() {
    let mut r = RubyRange::new(1, 5);
    assert_eq!(r.get_start(), 1);
    assert_eq!(r.get_end(), 5);
    r.set_start(2);
    r.set_end(7);
    assert_eq!(r.get_start(), 2);
    assert_eq!(r.get_end(), 7);
    let from = RubyRange::from(Range::new(4, 8));
    assert_eq!(from.get_start(), 4);
    let mut w = twitter_text::ruby::WeightedRange::new(0, 9, 100);
    w.set_weight(200);
    assert_eq!(w.get_weight(), 200);
    assert_eq!(w.get_range().get_end(), 9);
}

#[test]
fn urls_without_protocol_are_left_out_when_disabled() {
    let mut extractor = Extractor::new();
    let text = "see http://a.com and b.co.jp, https://c.org/x";
    assert_eq!(
        extractor.extract_urls(text),
        vec!["http://a.com", "b.co.jp", "https://c.org/x"]
    );
    extractor.set_extract_url_without_protocol(false);
    assert_eq!(extractor.extract_urls(text), vec!["http://a.com", "https://c.org/x"]);
}

#[test]
fn nfc_input_parses_as_prepared_input() {
    let config = config_v3();
    let text = "hello #tag https://example.com ⭐️";
    let extractor = ValidatingExtractor::new_with_nfc_input(&config, text);
    assert_eq!(parse(text, &config, false), extractor.extract_scan(text).parse_results);
    assert_eq!(
        parse(text, &config, true),
        extractor.extract_urls_with_indices(text).parse_results
    );
}

#[test]
fn checked_extraction_reports_what_cannot_be_computed() {
    let mut config = config_v3();
    config.scale = 0;
    let text = "#tag and text";
    let extractor = ValidatingExtractor::new_with_nfc_input(&config, text);
    assert!(extractor.try_extract_hashtags_with_indices(text).is_none());
    assert!(extractor.try_extract_scan(text).is_none());
    // Without a dollar sign nothing is weighed, so nothing divides by zero.
    let r = extractor.try_extract_cashtags_with_indices(text).unwrap();
    assert_eq!(r.parse_results, TwitterTextParseResults::empty());
    assert!(extractor.try_extract_reply_username(text).is_some());

    let config = config_v3();
    let extractor = ValidatingExtractor::new_with_nfc_input(&config, text);
    let r = extractor.try_extract_hashtags_with_indices(text).unwrap();
    assert_eq!(r.entities.len(), 1);
    assert_eq!(r.entities[0].value, "tag");
    assert_eq!(r.parse_results.weighted_length, 13);
}

#[test]
fn hosts_without_an_ascii_form_are_rejected() {
    // A label longer than 63 characters has no ASCII form under DNS rules.
    let extractor = Extractor::new();
    let long_label = "a".repeat(64);
    let text = format!("see http://{}.com now", long_label);
    assert!(extractor.extract_urls(&text).is_empty());
    let ok_label = "a".repeat(63);
    let text = format!("see http://{}.com now", ok_label);
    assert_eq!(extractor.extract_urls(&text), vec![format!("http://{}.com", ok_label)]);
}

#[test]
fn unknown_emoji_sequences_weigh_as_text() {
    // Two regional indicators that name no country are no emoji.
    let config = config_v3();
    assert_eq!(parse("\u{1F1E6}\u{1F1E6}", &config, false).weighted_length, 4);
    // A flag is one emoji.
    assert_eq!(parse("\u{1F1FA}\u{1F1F8}", &config, false).weighted_length, 2);
}

#[test]
fn urls_without_protocol_weigh_the_configured_length() {
    let r = parse("example.co.jp", &config_v3(), true);
    assert_eq!(r.weighted_length, 23);
    let text = parse("example.co.jp", &config_v3(), false);
    assert_eq!(text.weighted_length, 13);
    let mixed = parse("see example.com and http://example.org/a/long/path", &config_v3(), true);
    assert_eq!(mixed.weighted_length, 4 + 23 + 5 + 23);
}

#[test]
fn urls_weigh_the_same_whatever_their_length() {
    let short = parse("http://example.com/a", &config_v3(), true);
    let long = parse("http://example.com/aaaaaaaaaaaaaaaaaaaaaaaaaaaaaaaaaaaaaaaaaaaa", &config_v3(), true);
    assert_eq!(short.weighted_length, 23);
    assert_eq!(long.weighted_length, 23);
}

#[test]
fn newer_top_level_domains_are_recognised() {
    let extractor = Extractor::new();
    assert_eq!(extractor.extract_urls("http://example.ovh"), vec!["http://example.ovh"]);
    assert_eq!(extractor.extract_urls("see https://shop.zip now"), vec!["https://shop.zip"]);
    assert_eq!(extractor.extract_urls("http://a.abbott and http://b.nrw"), vec!["http://a.abbott", "http://b.nrw"]);
    assert!(extractor.extract_urls("http://example.sayrer").is_empty());
}

#[test]
fn cashtags_follow_dollar_signs() {
    let extractor = Extractor::new();
    let text = "buy $TWTR and $GOOG, not $ alone";
    let tags = extractor.extract_cashtags(text);
    assert_eq!(tags, vec!["TWTR", "GOOG"]);
    for t in &tags {
        assert!(text.contains(&format!("${}", t)));
    }
}

#[test]
fn validating_extractor_weighs_urls_without_protocol_whole() {
    let config = config_v3();
    let text = "go to example.com/some/path now";
    let extractor = ValidatingExtractor::new_with_nfc_input(&config, text);
    let r = extractor.extract_urls_with_indices(text);
    assert_eq!(r.entities.len(), 1);
    assert_eq!(r.entities[0].value, "example.com/some/path");
    assert_eq!(r.parse_results.weighted_length, 6 + 23 + 4);
}

#[test]
fn only_empty_text_gives_empty_results() {
    assert_eq!(try_parse("", &config_v3(), true), Some(TwitterTextParseResults::empty()));
    assert_ne!(parse(" ", &config_v3(), false), TwitterTextParseResults::empty());
    assert_ne!(parse("\u{301}", &config_v3(), false), TwitterTextParseResults::empty());
    assert_ne!(try_parse("a", &config_v3(), true), Some(TwitterTextParseResults::empty()));
}
