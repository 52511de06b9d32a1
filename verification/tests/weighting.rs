use twitter_text::config::{config_v1, config_v2, config_v3, config_v4, Configuration, WeightedRange};
use twitter_text::entity::Type;
use twitter_text::validating::{is_valid_emoji, ValidatingExtractor};
use twitter_text::{parse, parse_with_parser_backend, ParserBackend};

#[test]
fn test_weighted_length_mixed_unicode_and_emoji() {
    // Text: "H🐱☺👨‍👩‍👧‍👦", weighed with the second configuration.
    let config = config_v2();
    let text = "H🐱☺👨‍👩‍👧‍👦";
    let result = parse(text, &config, false);

    assert_eq!(
        result.weighted_length, 16,
        "Mixed single/double byte Unicode and emoji family counting is incorrect"
    );
    assert!(result.is_valid);
    assert_eq!(result.permillage, 57);
}

#[test]
fn test_weighted_length_emoji_with_skin_tone_modifiers() {
    let config = config_v2();
    let text = "🙋🏽👨‍🎤";
    let result = parse(text, &config, false);

    assert_eq!(
        result.weighted_length, 9,
        "Emoji with skin tone modifiers counting is incorrect"
    );
    assert!(result.is_valid);
    assert_eq!(result.permillage, 32);
}

#[test]
fn test_weighted_length_mixed_unicode_and_emoji_v3() {
    // With the third configuration, an emoji counts as one unit of two.
    let config = config_v3();
    let text = "H🐱☺👨‍👩‍👧‍👦";
    let result = parse(text, &config, false);

    assert_eq!(
        result.weighted_length, 7,
        "V3: Mixed single/double byte Unicode and emoji family counting is incorrect"
    );
    assert!(result.is_valid);
    assert_eq!(result.permillage, 25);
}

#[test]
fn test_weighted_length_emoji_with_skin_tone_modifiers_v3() {
    let config = config_v3();
    let text = "🙋🏽👨‍🎤";
    let result = parse(text, &config, false);

    assert_eq!(
        result.weighted_length, 4,
        "V3: Emoji with skin tone modifiers counting is incorrect"
    );
    assert!(result.is_valid);
    assert_eq!(result.permillage, 14);
}

#[test]
fn test_weighted_length_runic_counts_as_one_in_v4() {
    // Elder Futhark, plus the runic word separators at the end of the block.
    let text = "ᚠᚢᚦᚨᚱᚲᚷᚹᚺᚾᛁᛃᛇᛈᛉᛊᛏᛒᛖᛗᛚᛜᛞᛟ᛫᛬᛭";
    assert_eq!(text.chars().count(), 27);

    let v4 = parse(text, &config_v4(), false);
    assert_eq!(v4.weighted_length, 27, "runes should weigh one unit each");
    assert!(v4.is_valid);

    let v3 = parse(text, &config_v3(), false);
    assert_eq!(v3.weighted_length, 54);

    // The default configuration is the third one.
    let default = twitter_text::config::default();
    assert_eq!(default.version, 3);
    assert_eq!(parse(text, &default, false).weighted_length, 54);
}

#[test]
fn test_transliterated_futhark_passage_is_valid() {
    let latin = "the hazelnut and the walnut and the beechnut all fall from \
                 the trees in the autumn and the squirrels gather them and \
                 hide them beneath the roots where the snow will keep them \
                 safe until the hungry days of the late winter arrive";
    let futhark = "ᛏᚺᛖ ᚺᚨᛉᛖᛚᚾᚢᛏ ᚨᚾᛞ ᛏᚺᛖ ᚹᚨᛚᚾᚢᛏ ᚨᚾᛞ ᛏᚺᛖ ᛒᛖᛖᚲᚺᚾᚢᛏ ᚨᛚᛚ ᚠᚨᛚᛚ ᚠᚱᛟᛗ \
                   ᛏᚺᛖ ᛏᚱᛖᛖᛊ ᛁᚾ ᛏᚺᛖ ᚨᚢᛏᚢᛗᚾ ᚨᚾᛞ ᛏᚺᛖ ᛊᚲᚢᛁᚱᚱᛖᛚᛊ ᚷᚨᛏᚺᛖᚱ ᛏᚺᛖᛗ ᚨᚾᛞ \
                   ᚺᛁᛞᛖ ᛏᚺᛖᛗ ᛒᛖᚾᛖᚨᛏᚺ ᛏᚺᛖ ᚱᛟᛟᛏᛊ ᚹᚺᛖᚱᛖ ᛏᚺᛖ ᛊᚾᛟᚹ ᚹᛁᛚᛚ ᚲᛖᛖᛈ ᛏᚺᛖᛗ \
                   ᛊᚨᚠᛖ ᚢᚾᛏᛁᛚ ᛏᚺᛖ ᚺᚢᚾᚷᚱᚤ ᛞᚨᚤᛊ ᛟᚠ ᛏᚺᛖ ᛚᚨᛏᛖ ᚹᛁᚾᛏᛖᚱ ᚨᚱᚱᛁᚡᛖ";
    assert_eq!(latin.chars().count(), futhark.chars().count());

    let config = config_v4();
    let latin_result = parse(latin, &config, false);
    let futhark_result = parse(futhark, &config, false);

    assert!(latin_result.is_valid);
    assert_eq!(
        futhark_result.weighted_length, latin_result.weighted_length,
        "a one-to-one transliteration should not change the weighted length"
    );
    assert!(futhark_result.is_valid);

    // Under the default configuration each of the 185 runes weighs two and
    // each of the 42 spaces one.
    let default_result = parse(futhark, &twitter_text::config::default(), false);
    assert_eq!(default_result.weighted_length, 185 * 2 + 42);
    assert!(!default_result.is_valid);
}

fn single_range_config(start: i32, end: i32) -> Configuration {
    Configuration {
        version: 3,
        max_weighted_tweet_length: 280,
        scale: 100,
        default_weight: 200,
        transformed_url_length: 23,
        emoji_parsing_enabled: false,
        ranges: vec![WeightedRange::new(start, end, 100)],
    }
}

#[test]
fn test_weighting_respects_a_narrow_leading_range() {
    // Weight 100 stops at U+007F, so U+0101 takes the default weight of 200.
    let config = single_range_config(0, 127);

    assert_eq!(parse("a", &config, false).weighted_length, 1);
    assert_eq!(parse("ā", &config, false).weighted_length, 2);
    assert_eq!(parse("aā", &config, false).weighted_length, 3);
}

#[test]
fn test_weighting_without_a_leading_range() {
    // Only U+1100..U+1101 are discounted; everything else weighs 200.
    let config = single_range_config(4352, 4353);

    assert_eq!(parse("a", &config, false).weighted_length, 2);
    assert_eq!(parse("ᄀ", &config, false).weighted_length, 1);
    assert_eq!(parse("aᄀ", &config, false).weighted_length, 3);
}

#[test]
fn test_weighting_with_no_ranges() {
    let config = config_v1();

    assert_eq!(parse("hello", &config, false).weighted_length, 5);
    assert_eq!(parse("ᚠᚢᚦ漢字", &config, false).weighted_length, 5);
}

#[test]
fn test_emoji_weighting_v2_v3() {
    let config_v2 = config_v2();
    let config_v3 = config_v3();
    let text = "H🐱☺👨‍👩‍👧‍👦";

    println!("Text: {:?}", text);
    println!("emoji_parsing_enabled v2: {}", config_v2.emoji_parsing_enabled);
    println!("emoji_parsing_enabled v3: {}", config_v3.emoji_parsing_enabled);

    let ext_v2 = parse_with_parser_backend(text, &config_v2, false, ParserBackend::External);
    let nom_v2 = parse_with_parser_backend(text, &config_v2, false, ParserBackend::Nom);

    println!("\nV2 config:");
    println!("  External: weighted_length = {}", ext_v2.weighted_length);
    println!("  Nom:      weighted_length = {}", nom_v2.weighted_length);

    let ext_v3 = parse_with_parser_backend(text, &config_v3, false, ParserBackend::External);
    let nom_v3 = parse_with_parser_backend(text, &config_v3, false, ParserBackend::Nom);

    println!("\nV3 config:");
    println!("  External: weighted_length = {}", ext_v3.weighted_length);
    println!("  Nom:      weighted_length = {}", nom_v3.weighted_length);

    assert_eq!(ext_v2.weighted_length, nom_v2.weighted_length, "V2 mismatch");
    assert_eq!(ext_v3.weighted_length, nom_v3.weighted_length, "V3 mismatch");
}

#[test]
fn test_star_emoji_with_variation_selector() {
    // ⭐️ (U+2B50 + U+FE0F) counts as a single emoji.
    let config = config_v3();
    let text = "🔥🔥🔥 This is amazing! 💯💯💯 Best day ever! 🚀🚀🚀 To the moon! 🌙✨⭐️";

    let pest = parse_with_parser_backend(text, &config, false, ParserBackend::Pest);
    let ext = parse_with_parser_backend(text, &config, false, ParserBackend::External);
    let nom = parse_with_parser_backend(text, &config, false, ParserBackend::Nom);

    assert_eq!(pest.weighted_length, 72, "Pest weighted_length should be 72");
    assert_eq!(ext.weighted_length, 72, "External weighted_length should be 72");
    assert_eq!(nom.weighted_length, 72, "Nom weighted_length should be 72");
}

#[test]
fn test_emojis_crate_lookup() {
    // Simple emoji
    assert!(emojis::get("😀").is_some(), "Simple emoji should be found");

    // Family emoji (ZWJ sequence)
    assert!(emojis::get("👨‍👩‍👧‍👦").is_some(), "Family emoji should be found");

    // Skin tone emoji
    assert!(emojis::get("👋🏽").is_some(), "Skin tone emoji should be found");

    // Flag
    assert!(emojis::get("🇺🇸").is_some(), "Flag emoji should be found");

    // Not an emoji
    assert!(emojis::get("hello").is_none(), "Text should not be found as emoji");
    assert!(emojis::get("a").is_none(), "Single letter should not be found as emoji");

    // Star emoji with and without variation selector
    let star_with_vs = "\u{2b50}\u{fe0f}";
    let plain_star = "\u{2b50}";
    assert!(emojis::get(plain_star).is_some(), "Plain star should be found");
    assert!(
        emojis::get(star_with_vs).is_some(),
        "Star+FE0F should be found by emojis crate"
    );
    assert!(
        is_valid_emoji(star_with_vs),
        "Star+FE0F should be valid via is_valid_emoji"
    );
    assert!(
        is_valid_emoji(plain_star),
        "Plain star should be valid via is_valid_emoji"
    );
}

#[test]
fn test_validating_extractor_federated_mentions() {
    let config = Configuration::default();
    let text = "Hello @local and @user@mastodon.social!";

    let extractor = ValidatingExtractor::new_with_nfc_input(&config, text);
    let mentions = extractor.extract_federated_mentions(text);

    // Both the local and the federated mention.
    assert_eq!(2, mentions.len());
    assert_eq!("local", mentions[0]);
    assert_eq!("@user@mastodon.social", mentions[1]);

    let result = extractor.extract_federated_mentions_with_indices(text);

    assert!(result.parse_results.is_valid);
    assert_eq!(39, result.parse_results.weighted_length); // All ASCII, 1 weight each

    assert_eq!(2, result.entities.len());
    assert_eq!(Type::MENTION, result.entities[0].t);
    assert_eq!("local", result.entities[0].value);
    assert_eq!(Type::FEDERATEDMENTION, result.entities[1].t);
    assert_eq!("@user@mastodon.social", result.entities[1].value);
}

#[test]
fn test_validating_extractor_entities_federated() {
    let config = Configuration::default();
    let text = "Check https://example.com @user @fed@mastodon.social #tag $CASH";

    let extractor = ValidatingExtractor::new_with_nfc_input(&config, text);
    let result = extractor.extract_entities_with_indices_federated(text);

    assert!(result.parse_results.is_valid);

    // URL, mention, federated mention, hashtag, cashtag
    assert_eq!(5, result.entities.len());

    let federated = result.entities.iter().find(|e| e.t == Type::FEDERATEDMENTION);
    assert!(federated.is_some());
    assert_eq!("@fed@mastodon.social", federated.unwrap().value);
}
