# twitter_text

Extraction of URLs, hashtags, cashtags, mentions, lists and federated
mentions from tweets, and the weighing of tweets against a configured
length limit, verified with Verus.

- `src/` is the verified library:
  - `chars`, `text`: character classes, UTF-8 and UTF-16 lengths.
  - `scanner`: the tweet grammar, as spec functions and a scanner proved
    to follow them.
  - `tlds`, `domain`, `url`: top-level domains, where a host may end, and
    the validation of URLs (with the ASCII form of a host from `idna`).
  - `entity`, `extractor`: entities and the extractor that reports them
    with UTF-16 indices.
  - `config`, `weighting`, `validating`: configurations, weighing text
    character by character, and the extractor that weighs text while it
    extracts (emoji from `emojis`, NFC from `unicode-normalization`).
  - `laws`: properties of extraction and weighing, proved.
  - `ffi`, `ruby`: the records that the C and Ruby interfaces hand out.
  - `lib.rs`: `parse` and its results.
- `app/` reads configurations from JSON and offers the C interface to them.
- `tests/` runs the library on concrete texts.
