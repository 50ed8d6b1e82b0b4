//! The matching engine: a query evaluated as a chain of per-record
//! predicates, every supplied criterion combined with logical AND.

use vstd::prelude::*;
use crate::pattern::{escape_spec, pattern_matches, pattern_valid, clean_regex, CompiledPattern};
use crate::query::{Query, QueryView, default_query};
use crate::record::{Word, WordView, word_views};

verus! {

/// Whether an optional hardened pattern criterion accepts a field:
/// an absent criterion accepts everything.
pub open spec fn opt_pattern_accepts(crit: Option<Seq<char>>, field: Seq<char>) -> bool {
    match crit {
        None => true,
        Some(p) => pattern_matches(escape_spec(p), field),
    }
}

/// Whether an optional exact-match criterion accepts a number.
pub open spec fn opt_eq_accepts(crit: Option<i32>, n: i32) -> bool {
    match crit {
        None => true,
        Some(m) => n == m,
    }
}

/// Whether a record satisfies every criterion of a query: pattern
/// fields by hardened unanchored regex search, count fields by exact
/// equality, frequency by inclusive bounds.
pub open spec fn word_matches(q: QueryView, w: WordView) -> bool {
    &&& pattern_matches(escape_spec(q.orthography), w.orthography)
    &&& pattern_matches(escape_spec(q.transcription), w.transcription)
    &&& opt_eq_accepts(q.num_syllables, w.num_syllables)
    &&& opt_pattern_accepts(q.stress, w.stress)
    &&& opt_pattern_accepts(q.morph_orthography, w.morph_orthography)
    &&& opt_pattern_accepts(q.morph_transcription, w.morph_transcription)
    &&& opt_eq_accepts(q.num_morphemes, w.num_morphemes)
    &&& (match q.min_frequency {
        None => true,
        Some(m) => w.frequency >= m,
    })
    &&& (match q.max_frequency {
        None => true,
        Some(m) => w.frequency <= m,
    })
    &&& opt_pattern_accepts(q.part_of_speech, w.part_of_speech)
}

/// The records of the store that match the query, in store order.
pub open spec fn evaluate_spec(q: QueryView, ws: Seq<WordView>) -> Seq<WordView>
    decreases ws.len(),
{
    if ws.len() == 0 {
        Seq::empty()
    } else {
        (if word_matches(q, ws[0]) {
            seq![ws[0]]
        } else {
            Seq::empty()
        }) + evaluate_spec(q, ws.drop_first())
    }
}

/// Whether an optional pattern criterion compiles after hardening.
pub open spec fn opt_pattern_valid(crit: Option<Seq<char>>) -> bool {
    match crit {
        None => true,
        Some(p) => pattern_valid(escape_spec(p)),
    }
}

/// Whether every pattern of the query compiles after hardening: the
/// condition under which a request can be evaluated at all.
pub open spec fn query_patterns_valid(q: QueryView) -> bool {
    &&& pattern_valid(escape_spec(q.orthography))
    &&& pattern_valid(escape_spec(q.transcription))
    &&& opt_pattern_valid(q.stress)
    &&& opt_pattern_valid(q.morph_orthography)
    &&& opt_pattern_valid(q.morph_transcription)
    &&& opt_pattern_valid(q.part_of_speech)
}

/// A query with each of its patterns hardened and compiled once, ready
/// to scan records.
pub struct CompiledQuery {
    query: Query,
    orthography_re: CompiledPattern,
    transcription_re: CompiledPattern,
    stress_re: Option<CompiledPattern>,
    morph_orthography_re: Option<CompiledPattern>,
    morph_transcription_re: Option<CompiledPattern>,
    part_of_speech_re: Option<CompiledPattern>,
}

/// Whether an optional compiled pattern was compiled from this
/// optional criterion.
pub open spec fn opt_compiled_from(re: Option<CompiledPattern>, crit: Option<Seq<char>>) -> bool {
    match crit {
        None => re is None,
        Some(p) => re is Some && re.unwrap()@ == escape_spec(p),
    }
}

impl CompiledQuery {
    /// The query this was compiled from.
    pub closed spec fn query_view(&self) -> QueryView {
        self.query@
    }

    /// Each compiled pattern belongs to the matching query field.
    pub closed spec fn wf(&self) -> bool {
        &&& self.orthography_re@ == escape_spec(self.query@.orthography)
        &&& self.transcription_re@ == escape_spec(self.query@.transcription)
        &&& opt_compiled_from(self.stress_re, self.query@.stress)
        &&& opt_compiled_from(self.morph_orthography_re, self.query@.morph_orthography)
        &&& opt_compiled_from(self.morph_transcription_re, self.query@.morph_transcription)
        &&& opt_compiled_from(self.part_of_speech_re, self.query@.part_of_speech)
    }

    /// Whether one record satisfies every criterion of the query.
    pub fn matches_word(&self, w: &Word) -> (r: bool)
        requires
            self.wf(),
        ensures
            r == word_matches(self.query_view(), w@),
    {
        if !self.orthography_re.is_match(w.orthography.as_str()) {
            return false;
        }
        if !self.transcription_re.is_match(w.transcription.as_str()) {
            return false;
        }
        match self.query.num_syllables {
            Some(n) => if w.num_syllables != n {
                return false;
            },
            None => {},
        }
        match &self.stress_re {
            Some(re) => if !re.is_match(w.stress.as_str()) {
                return false;
            },
            None => {},
        }
        match &self.morph_orthography_re {
            Some(re) => if !re.is_match(w.morph_orthography.as_str()) {
                return false;
            },
            None => {},
        }
        match &self.morph_transcription_re {
            Some(re) => if !re.is_match(w.morph_transcription.as_str()) {
                return false;
            },
            None => {},
        }
        match self.query.num_morphemes {
            Some(n) => if w.num_morphemes != n {
                return false;
            },
            None => {},
        }
        match self.query.min_frequency {
            Some(m) => if w.frequency < m {
                return false;
            },
            None => {},
        }
        match self.query.max_frequency {
            Some(m) => if w.frequency > m {
                return false;
            },
            None => {},
        }
        match &self.part_of_speech_re {
            Some(re) => if !re.is_match(w.part_of_speech.as_str()) {
                return false;
            },
            None => {},
        }
        true
    }

    /// Scans the records in order and keeps every one that matches.
    pub fn evaluate(&self, words: &Vec<Word>) -> (r: Vec<Word>)
        requires
            self.wf(),
        ensures
            word_views(r@) == evaluate_spec(self.query_view(), word_views(words@)),
    {
        let ghost qv = self.query_view();
        let ghost all = word_views(words@);
        let mut result: Vec<Word> = Vec::new();
        let mut i: usize = 0;
        proof {
            assert(all.skip(0) =~= all);
            assert(word_views(result@) + evaluate_spec(qv, all.skip(0)) =~~= evaluate_spec(
                qv,
                all,
            ));
        }
        while i < words.len()
            invariant
                self.wf(),
                qv == self.query_view(),
                all == word_views(words@),
                i <= words.len(),
                words@.len() == all.len(),
                word_views(result@) + evaluate_spec(qv, all.skip(i as int)) =~~= evaluate_spec(
                    qv,
                    all,
                ),
            decreases words.len() - i,
        {
            proof {
                assert(all.skip(i as int)[0] == words@[i as int]@);
                assert(all.skip(i as int).drop_first() =~= all.skip(i + 1));
            }
            let ghost rv = word_views(result@);
            if self.matches_word(&words[i]) {
                result.push(words[i].clone());
                proof {
                    assert(word_views(result@) =~~= rv.push(words@[i as int]@));
                }
            }
            proof {
                assert(word_views(result@) + evaluate_spec(qv, all.skip(i + 1)) =~~= evaluate_spec(
                    qv,
                    all,
                ));
            }
            i = i + 1;
        }
        proof {
            assert(all.skip(words@.len() as int) =~= Seq::<WordView>::empty());
            assert(word_views(result@) =~~= evaluate_spec(qv, all));
        }
        result
    }
}

fn compile_optional(crit: &Option<String>) -> (r: Option<Option<CompiledPattern>>)
    ensures
        r is Some <==> opt_pattern_valid(crate::query::opt_view(*crit)),
        r is Some ==> opt_compiled_from(r.unwrap(), crate::query::opt_view(*crit)),
{
    match crit {
        None => Some(None),
        Some(p) => match clean_regex(p.as_str()) {
            Some(re) => Some(Some(re)),
            None => None,
        },
    }
}

/// Hardens and compiles every pattern of the query; `None` when any
/// pattern still fails to compile, which fails the whole request.
pub fn compile_query(query: Query) -> (r: Option<CompiledQuery>)
    ensures
        r is Some <==> query_patterns_valid(query@),
        r is Some ==> r.unwrap().wf() && r.unwrap().query_view() == query@,
{
    let orthography_re = match clean_regex(query.orthography.as_str()) {
        Some(re) => re,
        None => {
            return None;
        },
    };
    let transcription_re = match clean_regex(query.transcription.as_str()) {
        Some(re) => re,
        None => {
            return None;
        },
    };
    let stress_re = match compile_optional(&query.stress) {
        Some(o) => o,
        None => {
            return None;
        },
    };
    let morph_orthography_re = match compile_optional(&query.morph_orthography) {
        Some(o) => o,
        None => {
            return None;
        },
    };
    let morph_transcription_re = match compile_optional(&query.morph_transcription) {
        Some(o) => o,
        None => {
            return None;
        },
    };
    let part_of_speech_re = match compile_optional(&query.part_of_speech) {
        Some(o) => o,
        None => {
            return None;
        },
    };
    Some(
        CompiledQuery {
            query,
            orthography_re,
            transcription_re,
            stress_re,
            morph_orthography_re,
            morph_transcription_re,
            part_of_speech_re,
        },
    )
}

/// Law: a query with both mandatory patterns empty and every optional
/// field unset matches every record, so evaluation returns the whole
/// store, in store order.
pub proof fn lemma_unconstrained_query_returns_all(q: QueryView, ws: Seq<WordView>)
    requires
        q == default_query(),
    ensures
        evaluate_spec(q, ws) == ws,
    decreases ws.len(),
{
    assert(escape_spec(q.orthography) =~= Seq::<char>::empty());
    assert(escape_spec(q.transcription) =~= Seq::<char>::empty());
    if ws.len() == 0 {
        assert(evaluate_spec(q, ws) =~= ws);
    } else {
        assert(word_matches(q, ws[0]));
        lemma_unconstrained_query_returns_all(q, ws.drop_first());
        assert(evaluate_spec(q, ws) =~= ws);
    }
}

/// Law: a query whose minimum-frequency bound exceeds its
/// maximum-frequency bound matches no record at all, so evaluation
/// returns the empty sequence.
pub proof fn lemma_empty_frequency_range(q: QueryView, ws: Seq<WordView>)
    requires
        q.min_frequency is Some,
        q.max_frequency is Some,
        q.min_frequency.unwrap() > q.max_frequency.unwrap(),
    ensures
        evaluate_spec(q, ws) == Seq::<WordView>::empty(),
    decreases ws.len(),
{
    if ws.len() > 0 {
        assert(!word_matches(q, ws[0]));
        lemma_empty_frequency_range(q, ws.drop_first());
        assert(evaluate_spec(q, ws) =~= Seq::<WordView>::empty());
    } else {
        assert(evaluate_spec(q, ws) =~= Seq::<WordView>::empty());
    }
}

} // verus!
