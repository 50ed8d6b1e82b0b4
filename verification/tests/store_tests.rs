use word_lookup::query::parse_query;
use word_lookup::record::{normalize_line, parse_line, split_lines};
use word_lookup::store::Store;

const CAT: &str = "cat\tk\u{e6}t\t1\t1\tcat\tk\u{e6}t\t1\tNN\t120\t2.08";
const DOG: &str = "dog\td\u{254}g\t1\t1\tdog\td\u{254}g\t1\tNN\t50\t1.70";

#[test]
fn parse_line_reads_ten_fields() {
    let w = parse_line(CAT).expect("a ten-field line parses");
    assert_eq!(w.orthography, "cat");
    assert_eq!(w.transcription, "k\u{e6}t");
    assert_eq!(w.num_syllables, 1);
    assert_eq!(w.stress, "1");
    assert_eq!(w.morph_orthography, "cat");
    assert_eq!(w.morph_transcription, "k\u{e6}t");
    assert_eq!(w.num_morphemes, 1);
    assert_eq!(w.part_of_speech, "NN");
    assert_eq!(w.frequency, 120);
    assert_eq!(w.frequency_log, "2.08");
}

#[test]
fn parse_line_rejects_wrong_field_count() {
    assert!(parse_line("only\tthree\tfields").is_none());
    assert!(parse_line("").is_none());
    assert!(parse_line(&format!("{}\textra", CAT)).is_none());
}

#[test]
fn parse_line_defaults_unparsable_integers_to_zero() {
    let line = "cat\tk\u{e6}t\tx\t1\tcat\tk\u{e6}t\t\tNN\tmany\t2.08";
    let w = parse_line(line).expect("field count is right");
    assert_eq!(w.num_syllables, 0);
    assert_eq!(w.num_morphemes, 0);
    assert_eq!(w.frequency, 0);
}

#[test]
fn normalize_rewrites_schwa_variant() {
    assert_eq!(normalize_line("r\u{1dd}b"), "r\u{259}b");
    assert_eq!(normalize_line("plain"), "plain");
}

#[test]
fn split_lines_handles_crlf_and_trailing_newline() {
    let lines = split_lines("a\r\nb\nc\n");
    let views: Vec<&str> = lines.iter().map(|s| s.as_str()).collect();
    assert_eq!(views, vec!["a", "b", "c"]);
    assert!(split_lines("").is_empty());
}

#[test]
fn reload_round_trip_returns_every_loaded_record() {
    let mut store = Store::new();
    let body = format!("{}\n{}\n", CAT, DOG);
    store.reload(&body).expect("both lines parse");
    assert_eq!(store.len(), 2);

    let found = store
        .search(&parse_query(""))
        .expect("the unconstrained query compiles");
    assert_eq!(found.len(), 2);
    assert_eq!(found[0].orthography, "cat");
    assert_eq!(found[0].frequency, 120);
    assert_eq!(found[0].frequency_log, "2.08");
    assert_eq!(found[1].orthography, "dog");
    assert_eq!(found[1].frequency, 50);
}

#[test]
fn reload_normalizes_schwa_before_insertion() {
    let mut store = Store::new();
    let line = "about\t\u{1dd}ba\u{28a}t\t2\t01\tabout\t\u{1dd}ba\u{28a}t\t1\tRB\t900\t3.0";
    store.reload(line).expect("the line parses");
    let found = store.search(&parse_query("")).unwrap();
    assert_eq!(found[0].transcription, "\u{259}ba\u{28a}t");
}

#[test]
fn failed_reload_leaves_prior_store_intact() {
    let mut store = Store::new();
    store.reload(CAT).expect("the first load succeeds");
    assert_eq!(store.len(), 1);

    let bad_body = format!("{}\nnot\ta\trecord\n", DOG);
    let err = store.reload(&bad_body);
    assert_eq!(err, Err(1));

    assert_eq!(store.len(), 1);
    let found = store.search(&parse_query("")).unwrap();
    assert_eq!(found[0].orthography, "cat");
}

#[test]
fn reload_reports_first_malformed_line() {
    let mut store = Store::new();
    let body = format!("bad line\n{}\nworse\n", CAT);
    assert_eq!(store.reload(&body), Err(0));
    assert_eq!(store.len(), 0);
}

#[test]
fn reload_with_empty_body_empties_the_store() {
    let mut store = Store::new();
    store.reload(CAT).expect("the load succeeds");
    store.reload("").expect("an empty body holds zero records");
    assert_eq!(store.len(), 0);
}

#[test]
fn search_scans_reloaded_records() {
    let mut store = Store::new();
    let body = format!("{}\n{}\n", CAT, DOG);
    store.reload(&body).expect("both lines parse");

    let found = store.search(&parse_query("orthography=%5Ecat%24")).unwrap();
    assert_eq!(found.len(), 1);
    assert_eq!(found[0].orthography, "cat");

    let found = store.search(&parse_query("num_syllables=2")).unwrap();
    assert!(found.is_empty());

    assert!(store.search(&parse_query("orthography=%28")).is_none());
}
