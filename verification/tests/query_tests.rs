use word_lookup::query::{parse_query, string_or_none};
use word_lookup::text::{parse_i32, parse_len, split_on, str_eq, u64_to_dec};

#[test]
fn parse_query_all_fields() {
    let q = parse_query(
        "orthography=cat&transcription=k%C3%A6t&num_syllables=1&stress=1&morph_orthography=cat&morph_transcription=kaet&num_morphemes=1&min_frequency=10&max_frequency=200&part_of_speech=NN",
    );
    assert_eq!(q.orthography, "cat");
    assert_eq!(q.transcription, "k\u{e6}t");
    assert_eq!(q.num_syllables, Some(1));
    assert_eq!(q.stress.as_deref(), Some("1"));
    assert_eq!(q.morph_orthography.as_deref(), Some("cat"));
    assert_eq!(q.morph_transcription.as_deref(), Some("kaet"));
    assert_eq!(q.num_morphemes, Some(1));
    assert_eq!(q.min_frequency, Some(10));
    assert_eq!(q.max_frequency, Some(200));
    assert_eq!(q.part_of_speech.as_deref(), Some("NN"));
}

#[test]
fn parse_query_defaults() {
    let q = parse_query("");
    assert_eq!(q.orthography, "");
    assert_eq!(q.transcription, "");
    assert_eq!(q.num_syllables, None);
    assert_eq!(q.stress, None);
    assert_eq!(q.morph_orthography, None);
    assert_eq!(q.morph_transcription, None);
    assert_eq!(q.num_morphemes, None);
    assert_eq!(q.min_frequency, None);
    assert_eq!(q.max_frequency, None);
    assert_eq!(q.part_of_speech, None);
}

#[test]
fn parse_query_percent_decodes_values() {
    let q = parse_query("orthography=c%61t");
    assert_eq!(q.orthography, "cat");
}

#[test]
fn parse_query_ignores_unknown_keys_and_bare_words() {
    let q = parse_query("bogus=7&orthography=dog&justaword");
    assert_eq!(q.orthography, "dog");
    assert_eq!(q.num_syllables, None);
}

#[test]
fn parse_query_unparsable_integer_leaves_field_unset() {
    let q = parse_query("num_syllables=abc&min_frequency=-5&max_frequency=99999999999");
    assert_eq!(q.num_syllables, None);
    assert_eq!(q.min_frequency, Some(-5));
    assert_eq!(q.max_frequency, None);
}

#[test]
fn parse_query_empty_optional_string_is_unset() {
    let q = parse_query("stress=&part_of_speech=");
    assert_eq!(q.stress, None);
    assert_eq!(q.part_of_speech, None);
}

#[test]
fn parse_query_empty_mandatory_pattern_stays_empty() {
    let q = parse_query("orthography=&transcription=");
    assert_eq!(q.orthography, "");
    assert_eq!(q.transcription, "");
}

#[test]
fn parse_query_last_duplicate_wins() {
    let q = parse_query("orthography=cat&orthography=dog");
    assert_eq!(q.orthography, "dog");
}

#[test]
fn parse_query_undecodable_value_is_skipped() {
    let q = parse_query("orthography=%FF");
    assert_eq!(q.orthography, "");
}

#[test]
fn string_or_none_normalizes_empty() {
    assert_eq!(string_or_none(String::new()), None);
    assert_eq!(string_or_none(String::from("x")).as_deref(), Some("x"));
}

#[test]
fn parse_i32_accepts_signs_and_rejects_junk() {
    assert_eq!(parse_i32("0"), Some(0));
    assert_eq!(parse_i32("120"), Some(120));
    assert_eq!(parse_i32("-5"), Some(-5));
    assert_eq!(parse_i32("+7"), Some(7));
    assert_eq!(parse_i32("2147483647"), Some(2147483647));
    assert_eq!(parse_i32("-2147483648"), Some(-2147483648));
    assert_eq!(parse_i32("2147483648"), None);
    assert_eq!(parse_i32("-2147483649"), None);
    assert_eq!(parse_i32(""), None);
    assert_eq!(parse_i32("-"), None);
    assert_eq!(parse_i32(" 1"), None);
    assert_eq!(parse_i32("1 "), None);
    assert_eq!(parse_i32("1a"), None);
    assert_eq!(parse_i32("99999999999"), None);
}

#[test]
fn parse_len_digits_only() {
    assert_eq!(parse_len("500"), Some(500));
    assert_eq!(parse_len("0"), Some(0));
    assert_eq!(parse_len("-1"), None);
    assert_eq!(parse_len(""), None);
    assert_eq!(parse_len("12 "), None);
}

#[test]
fn split_on_keeps_empty_pieces() {
    let pieces = split_on("a&&b&", '&');
    let views: Vec<&str> = pieces.iter().map(|s| s.as_str()).collect();
    assert_eq!(views, vec!["a", "", "b", ""]);
    assert_eq!(split_on("", '&').len(), 1);
}

#[test]
fn str_eq_compares_contents() {
    assert!(str_eq("abc", "abc"));
    assert!(!str_eq("abc", "abd"));
    assert!(!str_eq("abc", "abcd"));
}

#[test]
fn u64_to_dec_renders_decimal() {
    assert_eq!(u64_to_dec(0), "0");
    assert_eq!(u64_to_dec(200), "200");
    assert_eq!(u64_to_dec(18446744073709551615), "18446744073709551615");
}
