//! The record store: the dictionary held as a sequence of records,
//! scanned by queries and replaced wholesale by uploads. A reload is
//! all-or-nothing: one malformed line leaves the prior contents intact.

use vstd::prelude::*;
use crate::engine::{
    evaluate_spec, query_patterns_valid, compile_query, lemma_unconstrained_query_returns_all,
};
use crate::query::{Query, QueryView, default_query};
use crate::record::{
    Word, WordView, word_views, parse_line, parse_line_spec, normalize_line, normalize_spec,
    lines_spec, split_lines,
};
use crate::text::string_views;

verus! {

/// What one upload line denotes: the record parsed off the line after
/// character normalization, or nothing when the line is malformed.
pub open spec fn line_record(line: Seq<char>) -> Option<WordView> {
    parse_line_spec(normalize_spec(line))
}

/// Whether every line of an upload denotes a record.
pub open spec fn all_lines_parse(lines: Seq<Seq<char>>) -> bool {
    forall|k: int| 0 <= k < lines.len() ==> line_record(lines[k]) is Some
}

/// The records denoted by the lines of a well-formed upload, in order.
pub open spec fn parsed_records(lines: Seq<Seq<char>>) -> Seq<WordView> {
    Seq::new(lines.len(), |k: int| line_record(lines[k]).unwrap())
}

/// The dictionary as an owned sequence of records.
pub struct Store {
    words: Vec<Word>,
}

impl View for Store {
    type V = Seq<WordView>;

    closed spec fn view(&self) -> Seq<WordView> {
        word_views(self.words@)
    }
}

impl Store {
    /// An empty store.
    pub fn new() -> (r: Store)
        ensures
            r@ == Seq::<WordView>::empty(),
    {
        let r = Store { words: Vec::new() };
        proof {
            assert(r@ =~= Seq::<WordView>::empty());
        }
        r
    }

    /// The records, in store order.
    pub fn records(&self) -> (r: &Vec<Word>)
        ensures
            word_views(r@) == self@,
    {
        &self.words
    }

    /// How many records the store holds.
    pub fn len(&self) -> (r: usize)
        ensures
            r == self@.len(),
    {
        self.words.len()
    }

    /// Replaces the whole store from an upload body, line by line:
    /// commits only if every line parses; any malformed line aborts the
    /// reload with its index and leaves the prior contents intact.
    pub fn reload(&mut self, body: &str) -> (r: Result<(), usize>)
        ensures
            r is Ok <==> all_lines_parse(lines_spec(body@)),
            r is Ok ==> final(self)@ == parsed_records(lines_spec(body@)),
            r is Err ==> final(self)@ == old(self)@,
            r is Err ==> r->Err_0 < lines_spec(body@).len() && line_record(
                lines_spec(body@)[r->Err_0 as int],
            ) is None && (forall|j: int|
                0 <= j < r->Err_0 ==> line_record(lines_spec(body@)[j]) is Some),
    {
        let lines = split_lines(body);
        let ghost ls = lines_spec(body@);
        let mut new_words: Vec<Word> = Vec::new();
        let mut k: usize = 0;
        while k < lines.len()
            invariant
                ls == lines_spec(body@),
                string_views(lines@) == ls,
                lines@.len() == ls.len(),
                k <= ls.len(),
                new_words@.len() == k,
                forall|j: int| 0 <= j < k ==> line_record(ls[j]) is Some,
                forall|j: int|
                    0 <= j < k ==> word_views(new_words@)[j] == line_record(ls[j]).unwrap(),
            decreases ls.len() - k,
        {
            proof {
                assert(ls[k as int] == lines@[k as int]@);
            }
            let norm = normalize_line(lines[k].as_str());
            match parse_line(norm.as_str()) {
                None => {
                    proof {
                        assert(line_record(ls[k as int]) is None);
                        assert(!all_lines_parse(ls));
                    }
                    return Err(k);
                },
                Some(w) => {
                    let ghost nv = word_views(new_words@);
                    let ghost wv = w@;
                    new_words.push(w);
                    proof {
                        assert(word_views(new_words@) =~= nv.push(wv));
                        assert(wv == line_record(ls[k as int]).unwrap());
                    }
                },
            }
            k = k + 1;
        }
        self.words = new_words;
        proof {
            assert(self@ =~= parsed_records(ls));
        }
        Ok(())
    }

    /// Runs a query against the store: every record matching all
    /// criteria, in store order; `None` when a pattern of the query
    /// fails to compile, which fails the whole request.
    pub fn search(&self, query: &Query) -> (r: Option<Vec<Word>>)
        ensures
            r is Some <==> query_patterns_valid(query@),
            r is Some ==> word_views(r.unwrap()@) == evaluate_spec(query@, self@),
    {
        match compile_query(query.clone()) {
            None => None,
            Some(cq) => Some(cq.evaluate(&self.words)),
        }
    }
}

/// Law (round trip): an upload whose lines all parse loads exactly one
/// record per line, field for field as parsed (after normalization),
/// and the unconstrained query then returns exactly those records, in
/// order.
pub proof fn lemma_reload_round_trip(lines: Seq<Seq<char>>)
    requires
        all_lines_parse(lines),
    ensures
        parsed_records(lines).len() == lines.len(),
        forall|k: int|
            0 <= k < lines.len() ==> parsed_records(lines)[k] == line_record(lines[k]).unwrap(),
        evaluate_spec(default_query(), parsed_records(lines)) == parsed_records(lines),
{
    lemma_unconstrained_query_returns_all(default_query(), parsed_records(lines));
}

} // verus!
