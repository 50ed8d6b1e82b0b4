//! Dictionary records: the ten-field word record, parsing a record off
//! a tab-separated line, and splitting an upload body into lines.

use vstd::prelude::*;
use crate::text::{
    split_spec, split_on, string_views, parse_i32_spec, parse_i32,
};

verus! {

/// The mathematical shape of one dictionary record. The log-frequency
/// field is carried as its source text: the library only passes it
/// through to output, so its numeric reading is presentation-level.
#[verifier::ext_equal]
pub ghost struct WordView {
    pub orthography: Seq<char>,
    pub transcription: Seq<char>,
    pub num_syllables: i32,
    pub stress: Seq<char>,
    pub morph_orthography: Seq<char>,
    pub morph_transcription: Seq<char>,
    pub num_morphemes: i32,
    pub part_of_speech: Seq<char>,
    pub frequency: i32,
    pub frequency_log: Seq<char>,
}

/// One dictionary entry.
pub struct Word {
    pub orthography: String,
    pub transcription: String,
    pub num_syllables: i32,
    pub stress: String,
    pub morph_orthography: String,
    pub morph_transcription: String,
    pub num_morphemes: i32,
    pub part_of_speech: String,
    pub frequency: i32,
    pub frequency_log: String,
}

impl View for Word {
    type V = WordView;

    open spec fn view(&self) -> WordView {
        WordView {
            orthography: self.orthography@,
            transcription: self.transcription@,
            num_syllables: self.num_syllables,
            stress: self.stress@,
            morph_orthography: self.morph_orthography@,
            morph_transcription: self.morph_transcription@,
            num_morphemes: self.num_morphemes,
            part_of_speech: self.part_of_speech@,
            frequency: self.frequency,
            frequency_log: self.frequency_log@,
        }
    }
}

impl Clone for Word {
    fn clone(&self) -> (r: Self)
        ensures
            r@ == self@,
    {
        let r = Word {
            orthography: self.orthography.clone(),
            transcription: self.transcription.clone(),
            num_syllables: self.num_syllables,
            stress: self.stress.clone(),
            morph_orthography: self.morph_orthography.clone(),
            morph_transcription: self.morph_transcription.clone(),
            num_morphemes: self.num_morphemes,
            part_of_speech: self.part_of_speech.clone(),
            frequency: self.frequency,
            frequency_log: self.frequency_log.clone(),
        };
        proof {
            assert(r@ =~= self@);
        }
        r
    }
}

/// The views of a sequence of words.
pub open spec fn word_views(v: Seq<Word>) -> Seq<WordView> {
    v.map_values(|w: Word| w@)
}

/// An integer record field: a failed parse defaults to zero.
pub open spec fn int_field(s: Seq<char>) -> i32 {
    match parse_i32_spec(s) {
        Some(v) => v,
        None => 0,
    }
}

fn int_field_exec(s: &str) -> (r: i32)
    ensures
        r == int_field(s@),
{
    match parse_i32(s) {
        Some(v) => v,
        None => 0,
    }
}

/// What a tab-separated line denotes: exactly ten fields in the fixed
/// order, integer fields defaulting to zero when unparsable; a line
/// with any other field count is malformed and rejected.
pub open spec fn parse_line_spec(line: Seq<char>) -> Option<WordView> {
    let cols = split_spec(line, '\t');
    if cols.len() == 10 {
        Some(
            WordView {
                orthography: cols[0],
                transcription: cols[1],
                num_syllables: int_field(cols[2]),
                stress: cols[3],
                morph_orthography: cols[4],
                morph_transcription: cols[5],
                num_morphemes: int_field(cols[6]),
                part_of_speech: cols[7],
                frequency: int_field(cols[8]),
                frequency_log: cols[9],
            },
        )
    } else {
        None
    }
}

/// Parses one record off a tab-separated line.
pub fn parse_line(line: &str) -> (r: Option<Word>)
    ensures
        r is Some <==> parse_line_spec(line@) is Some,
        r is Some ==> r.unwrap()@ == parse_line_spec(line@).unwrap(),
{
    let cols = split_on(line, '\t');
    if cols.len() != 10 {
        return None;
    }
    let w = Word {
        orthography: cols[0].clone(),
        transcription: cols[1].clone(),
        num_syllables: int_field_exec(cols[2].as_str()),
        stress: cols[3].clone(),
        morph_orthography: cols[4].clone(),
        morph_transcription: cols[5].clone(),
        num_morphemes: int_field_exec(cols[6].as_str()),
        part_of_speech: cols[7].clone(),
        frequency: int_field_exec(cols[8].as_str()),
        frequency_log: cols[9].clone(),
    };
    proof {
        let sv = string_views(cols@);
        assert(sv.len() == 10);
        assert(w@ =~= parse_line_spec(line@).unwrap());
    }
    Some(w)
}

/// The canonical form of one character: the one substituted variant of
/// the schwa-like letter is rewritten to its canonical code point.
pub open spec fn canon_char(c: char) -> char {
    if c == '\u{01DD}' {
        '\u{0259}'
    } else {
        c
    }
}

/// The canonical form of a whole line.
pub open spec fn normalize_spec(s: Seq<char>) -> Seq<char> {
    s.map_values(|c: char| canon_char(c))
}

/// Rewrites the schwa-like character variant to its canonical form.
pub fn normalize_line(s: &str) -> (r: String)
    ensures
        r@ == normalize_spec(s@),
{
    let n: usize = s.unicode_len();
    let mut out = String::new();
    let mut i: usize = 0;
    proof {
        assert(out@ =~= normalize_spec(s@.take(0)));
    }
    while i < n
        invariant
            n == s@.len(),
            i <= n,
            out@ == normalize_spec(s@.take(i as int)),
        decreases n - i,
    {
        let c = s.get_char(i);
        let cc: char = if c == '\u{01DD}' {
            '\u{0259}'
        } else {
            c
        };
        crate::text::push_char(&mut out, cc);
        proof {
            assert(out@ =~= normalize_spec(s@.take(i + 1)));
        }
        i = i + 1;
    }
    proof {
        assert(s@.take(n as int) =~= s@);
    }
    out
}

/// A line with a trailing carriage return removed.
pub open spec fn strip_cr(s: Seq<char>) -> Seq<char> {
    if s.len() > 0 && s.last() == '\r' {
        s.drop_last()
    } else {
        s
    }
}

/// Each line with its trailing carriage return removed.
pub open spec fn strip_all(v: Seq<Seq<char>>) -> Seq<Seq<char>> {
    v.map_values(|l: Seq<char>| strip_cr(l))
}

/// The lines of an upload body: pieces between newlines, a trailing
/// carriage return dropped from each, and a final empty piece (from a
/// trailing newline, or an empty body) ignored.
pub open spec fn lines_spec(t: Seq<char>) -> Seq<Seq<char>> {
    let raw = split_spec(t, '\n');
    let kept = if raw.len() > 0 && raw.last().len() == 0 {
        raw.drop_last()
    } else {
        raw
    };
    strip_all(kept)
}

fn strip_cr_exec(s: &str) -> (r: String)
    ensures
        r@ == strip_cr(s@),
{
    let n: usize = s.unicode_len();
    if n > 0 && s.get_char(n - 1) == '\r' {
        proof {
            assert(s@.subrange(0, n - 1) =~= s@.drop_last());
        }
        s.substring_char(0, n - 1).to_owned()
    } else {
        s.to_owned()
    }
}

/// Splits an upload body into record lines.
pub fn split_lines(t: &str) -> (r: Vec<String>)
    ensures
        string_views(r@) == lines_spec(t@),
{
    let mut raw = split_on(t, '\n');
    let ghost rawv = string_views(raw@);
    if raw[raw.len() - 1].as_str().is_empty() {
        raw.pop();
        proof {
            assert(string_views(raw@) =~~= rawv.drop_last());
        }
    }
    let ghost kept = string_views(raw@);
    let mut out: Vec<String> = Vec::new();
    let mut i: usize = 0;
    proof {
        assert(string_views(out@) =~~= strip_all(kept.take(0)));
    }
    while i < raw.len()
        invariant
            i <= raw.len(),
            kept == string_views(raw@),
            string_views(out@) == strip_all(kept.take(i as int)),
        decreases raw.len() - i,
    {
        let ghost outv = string_views(out@);
        let piece = strip_cr_exec(raw[i].as_str());
        let ghost piece_view = piece@;
        out.push(piece);
        proof {
            assert(kept[i as int] == raw@[i as int]@);
            assert(piece_view == strip_cr(kept[i as int]));
            assert(string_views(out@) =~~= outv.push(piece_view));
            assert(strip_all(kept.take(i + 1)) =~~= strip_all(kept.take(i as int)).push(
                strip_cr(kept[i as int]),
            ));
            assert(string_views(out@) =~~= strip_all(kept.take(i + 1)));
        }
        i = i + 1;
    }
    proof {
        assert(kept.take(raw.len() as int) =~= kept);
        assert(string_views(out@) =~~= lines_spec(t@));
    }
    out
}

} // verus!
