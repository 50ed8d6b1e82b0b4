use word_lookup::engine::compile_query;
use word_lookup::pattern::{clean_regex, escape_pattern};
use word_lookup::query::{parse_query, Query};
use word_lookup::record::Word;

fn word(orthography: &str, transcription: &str, syllables: i32, stress: &str, frequency: i32) -> Word {
    Word {
        orthography: String::from(orthography),
        transcription: String::from(transcription),
        num_syllables: syllables,
        stress: String::from(stress),
        morph_orthography: String::from(orthography),
        morph_transcription: String::from(transcription),
        num_morphemes: 1,
        part_of_speech: String::from("NN"),
        frequency,
        frequency_log: String::from("2.0"),
    }
}

fn default_query() -> Query {
    parse_query("")
}

fn run(query: Query, words: &Vec<Word>) -> Vec<Word> {
    compile_query(query).expect("patterns must compile").evaluate(words)
}

#[test]
fn unconstrained_query_returns_every_record_in_order() {
    let words = vec![
        word("cat", "k\u{e6}t", 1, "1", 120),
        word("dog", "d\u{254}g", 1, "1", 50),
        word("rabbit", "r\u{e6}b\u{259}t", 2, "10", 8),
    ];
    let out = run(default_query(), &words);
    assert_eq!(out.len(), 3);
    assert_eq!(out[0].orthography, "cat");
    assert_eq!(out[1].orthography, "dog");
    assert_eq!(out[2].orthography, "rabbit");
}

#[test]
fn literal_spelling_matches_its_own_record_as_substring() {
    let words = vec![
        word("cat", "k\u{e6}t", 1, "1", 120),
        word("concatenate", "k\u{259}nk\u{e6}t\u{259}ne\u{26a}t", 4, "0100", 3),
        word("dog", "d\u{254}g", 1, "1", 50),
    ];
    let mut q = default_query();
    q.orthography = String::from("cat");
    let out = run(q, &words);
    assert_eq!(out.len(), 2);
    assert_eq!(out[0].orthography, "cat");
    assert_eq!(out[1].orthography, "concatenate");
}

#[test]
fn empty_frequency_range_returns_nothing() {
    let words = vec![
        word("cat", "k\u{e6}t", 1, "1", 120),
        word("dog", "d\u{254}g", 1, "1", 50),
    ];
    let mut q = default_query();
    q.min_frequency = Some(100);
    q.max_frequency = Some(50);
    let out = run(q, &words);
    assert!(out.is_empty());
}

#[test]
fn single_record_scenarios() {
    let words = vec![word("cat", "k\u{e6}t", 1, "1", 120)];

    let mut q = default_query();
    q.orthography = String::from("^cat$");
    let out = run(q, &words);
    assert_eq!(out.len(), 1);
    assert_eq!(out[0].orthography, "cat");
    assert_eq!(out[0].transcription, "k\u{e6}t");

    let mut q = default_query();
    q.orthography = String::from("^dog$");
    assert!(run(q, &words).is_empty());

    let mut q = default_query();
    q.num_syllables = Some(2);
    assert!(run(q, &words).is_empty());
}

#[test]
fn frequency_bounds_are_inclusive() {
    let words = vec![
        word("cat", "k\u{e6}t", 1, "1", 120),
        word("dog", "d\u{254}g", 1, "1", 50),
    ];
    let mut q = default_query();
    q.min_frequency = Some(50);
    q.max_frequency = Some(120);
    assert_eq!(run(q, &words).len(), 2);

    let mut q = default_query();
    q.min_frequency = Some(51);
    let out = run(q, &words);
    assert_eq!(out.len(), 1);
    assert_eq!(out[0].orthography, "cat");

    let mut q = default_query();
    q.max_frequency = Some(119);
    let out = run(q, &words);
    assert_eq!(out.len(), 1);
    assert_eq!(out[0].orthography, "dog");
}

#[test]
fn optional_pattern_fields_filter_records() {
    let mut stressed = word("record", "r\u{26a}k\u{254}rd", 2, "01", 30);
    stressed.part_of_speech = String::from("VB");
    let words = vec![word("cat", "k\u{e6}t", 1, "1", 120), stressed];

    let q = parse_query("stress=01");
    let out = run(q, &words);
    assert_eq!(out.len(), 1);
    assert_eq!(out[0].orthography, "record");

    let q = parse_query("part_of_speech=NN");
    let out = run(q, &words);
    assert_eq!(out.len(), 1);
    assert_eq!(out[0].orthography, "cat");
}

#[test]
fn bad_mandatory_pattern_fails_the_whole_request() {
    let q = parse_query("orthography=%28");
    assert!(compile_query(q).is_none());
}

#[test]
fn bad_optional_pattern_fails_the_whole_request() {
    let q = parse_query("stress=%28");
    assert!(compile_query(q).is_none());
}

#[test]
fn escape_rewrites_each_special_character() {
    assert_eq!(escape_pattern("\\"), "\\\\");
    assert_eq!(escape_pattern("["), "\\[");
    assert_eq!(escape_pattern("{"), "\\{");
    assert_eq!(escape_pattern("(?"), "(\\?");
    assert_eq!(escape_pattern("a.b*"), "a.b*");
    assert_eq!(escape_pattern("(x)?"), "(x)?");
    assert_eq!(escape_pattern("(?(?"), "(\\?(\\?");
    assert_eq!(escape_pattern("a[b]{2}\\d"), "a\\[b]\\{2}\\\\d");
}

#[test]
fn hardened_group_pattern_still_compiles() {
    let compiled = clean_regex("(?)").expect("the hardened pattern must compile");
    assert_eq!(compiled.pattern_text(), "(\\?)");
    assert!(compiled.is_match("x?y"));

    let compiled = clean_regex("(?:abc)").expect("the hardened pattern must compile");
    assert_eq!(compiled.pattern_text(), "(\\?:abc)");
    assert!(compiled.is_match("x?:abcy"));
    assert!(!compiled.is_match("abc"));

    assert!(clean_regex("(?").is_none());
}

#[test]
fn empty_pattern_matches_everything() {
    let compiled = clean_regex("").expect("the empty pattern must compile");
    assert!(compiled.is_match(""));
    assert!(compiled.is_match("anything"));
}

#[test]
fn character_class_syntax_is_defanged() {
    let words = vec![word("a", "a", 1, "1", 1), word("a[b]", "ab", 1, "1", 1)];
    let mut q = default_query();
    q.orthography = String::from("a[b]");
    let out = run(q, &words);
    assert_eq!(out.len(), 1);
    assert_eq!(out[0].orthography, "a[b]");
}
