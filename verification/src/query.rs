//! The query model: client filter criteria decoded and normalized from
//! raw `&`-delimited `key=value` pairs.

use vstd::prelude::*;
use crate::text::{find_char, find_char_in, split_spec, split_on, string_views, parse_i32_spec, parse_i32, str_eq};

verus! {

/// Client filter criteria. The two mandatory pattern fields default to
/// the empty string, which means "match everything"; every other field
/// is optional, and absent means "no filter".
pub struct Query {
    pub orthography: String,
    pub transcription: String,
    pub num_syllables: Option<i32>,
    pub stress: Option<String>,
    pub morph_orthography: Option<String>,
    pub morph_transcription: Option<String>,
    pub num_morphemes: Option<i32>,
    pub min_frequency: Option<i32>,
    pub max_frequency: Option<i32>,
    pub part_of_speech: Option<String>,
}

/// The mathematical shape of a query.
#[verifier::ext_equal]
pub ghost struct QueryView {
    pub orthography: Seq<char>,
    pub transcription: Seq<char>,
    pub num_syllables: Option<i32>,
    pub stress: Option<Seq<char>>,
    pub morph_orthography: Option<Seq<char>>,
    pub morph_transcription: Option<Seq<char>>,
    pub num_morphemes: Option<i32>,
    pub min_frequency: Option<i32>,
    pub max_frequency: Option<i32>,
    pub part_of_speech: Option<Seq<char>>,
}

pub open spec fn opt_view(o: Option<String>) -> Option<Seq<char>> {
    match o {
        Some(s) => Some(s@),
        None => None,
    }
}

impl View for Query {
    type V = QueryView;

    open spec fn view(&self) -> QueryView {
        QueryView {
            orthography: self.orthography@,
            transcription: self.transcription@,
            num_syllables: self.num_syllables,
            stress: opt_view(self.stress),
            morph_orthography: opt_view(self.morph_orthography),
            morph_transcription: opt_view(self.morph_transcription),
            num_morphemes: self.num_morphemes,
            min_frequency: self.min_frequency,
            max_frequency: self.max_frequency,
            part_of_speech: opt_view(self.part_of_speech),
        }
    }
}

/// The query with no criteria: both mandatory patterns empty (match
/// everything) and every optional field unset.
pub open spec fn default_query() -> QueryView {
    QueryView {
        orthography: Seq::empty(),
        transcription: Seq::empty(),
        num_syllables: None,
        stress: None,
        morph_orthography: None,
        morph_transcription: None,
        num_morphemes: None,
        min_frequency: None,
        max_frequency: None,
        part_of_speech: None,
    }
}

impl Query {
    /// The query with no criteria.
    pub fn new() -> (r: Query)
        ensures
            r@ == default_query(),
    {
        let r = Query {
            orthography: String::new(),
            transcription: String::new(),
            num_syllables: None,
            stress: None,
            morph_orthography: None,
            morph_transcription: None,
            num_morphemes: None,
            min_frequency: None,
            max_frequency: None,
            part_of_speech: None,
        };
        proof {
            assert(r@ =~= default_query());
        }
        r
    }
}

fn clone_opt(o: &Option<String>) -> (r: Option<String>)
    ensures
        opt_view(r) == opt_view(*o),
{
    match o {
        Some(s) => Some(s.clone()),
        None => None,
    }
}

impl Clone for Query {
    fn clone(&self) -> (r: Self)
        ensures
            r@ == self@,
    {
        let r = Query {
            orthography: self.orthography.clone(),
            transcription: self.transcription.clone(),
            num_syllables: self.num_syllables,
            stress: clone_opt(&self.stress),
            morph_orthography: clone_opt(&self.morph_orthography),
            morph_transcription: clone_opt(&self.morph_transcription),
            num_morphemes: self.num_morphemes,
            min_frequency: self.min_frequency,
            max_frequency: self.max_frequency,
            part_of_speech: clone_opt(&self.part_of_speech),
        };
        proof {
            assert(r@ =~= self@);
        }
        r
    }
}

/// Returns `Some(string)` for a non-empty string and `None` for an
/// empty one: optional query fields normalize the empty string to
/// "unset".
pub fn string_or_none(string: String) -> (r: Option<String>)
    ensures
        opt_view(r) == opt_of(string@),
{
    if string.as_str().is_empty() {
        None
    } else {
        Some(string)
    }
}

/// An optional string criterion: the empty string means "unset".
pub open spec fn opt_of(value: Seq<char>) -> Option<Seq<char>> {
    if value.len() > 0 {
        Some(value)
    } else {
        None
    }
}

/// What a decoded percent-encoded value denotes, when it decodes to
/// well-formed text at all.
pub uninterp spec fn percent_decoded(s: Seq<char>) -> Option<Seq<char>>;

/// Relies on `percent_encoding::percent_decode_str` followed by
/// `PercentDecode::decode_utf8`: percent sequences are replaced by the
/// bytes they name and the result re-read as text, an outcome that is a
/// function of the input alone.
#[verifier::external_body]
fn percent_decode(s: &str) -> (r: Option<String>)
    ensures
        r is Some <==> percent_decoded(s@) is Some,
        r is Some ==> r.unwrap()@ == percent_decoded(s@).unwrap(),
{
    match percent_encoding::percent_decode_str(s).decode_utf8() {
        Ok(v) => Some(v.into_owned()),
        Err(_) => None,
    }
}

/// How one `key=value` pair updates the query under construction: an
/// unknown key, a pair without `=`, or an undecodable value changes
/// nothing.
pub open spec fn apply_param(q: QueryView, param: Seq<char>) -> QueryView {
    match find_char(param, '=') {
        None => q,
        Some(i) => {
            let key = param.take(i);
            let raw = param.skip(i + 1);
            match percent_decoded(raw) {
                None => q,
                Some(value) => assign_field(q, key, value),
            }
        },
    }
}

/// Which field a key names, and what its decoded value sets it to.
pub open spec fn assign_field(q: QueryView, key: Seq<char>, value: Seq<char>) -> QueryView {
    if key == "orthography"@ {
        QueryView { orthography: value, ..q }
    } else if key == "transcription"@ {
        QueryView { transcription: value, ..q }
    } else if key == "num_syllables"@ {
        QueryView { num_syllables: parse_i32_spec(value), ..q }
    } else if key == "stress"@ {
        QueryView { stress: opt_of(value), ..q }
    } else if key == "morph_orthography"@ {
        QueryView { morph_orthography: opt_of(value), ..q }
    } else if key == "morph_transcription"@ {
        QueryView { morph_transcription: opt_of(value), ..q }
    } else if key == "num_morphemes"@ {
        QueryView { num_morphemes: parse_i32_spec(value), ..q }
    } else if key == "min_frequency"@ {
        QueryView { min_frequency: parse_i32_spec(value), ..q }
    } else if key == "max_frequency"@ {
        QueryView { max_frequency: parse_i32_spec(value), ..q }
    } else if key == "part_of_speech"@ {
        QueryView { part_of_speech: opt_of(value), ..q }
    } else {
        q
    }
}

/// The parameters applied in order, later pairs overriding earlier
/// ones.
pub open spec fn fold_params(params: Seq<Seq<char>>, q: QueryView) -> QueryView
    decreases params.len(),
{
    if params.len() == 0 {
        q
    } else {
        fold_params(params.drop_first(), apply_param(q, params[0]))
    }
}

/// What a raw query string denotes.
pub open spec fn parse_query_spec(raw: Seq<char>) -> QueryView {
    fold_params(split_spec(raw, '&'), default_query())
}

/// Decodes and normalizes a raw query string into a query: pairs are
/// split on `&`, values percent-decoded, unknown keys ignored, integer
/// fields left unset when unparsable, and empty optional strings
/// normalized to "unset".
pub fn parse_query(query: &str) -> (r: Query)
    ensures
        r@ == parse_query_spec(query@),
{
    let params = split_on(query, '&');
    let ghost pv = string_views(params@);
    let mut result = Query::new();
    let mut idx: usize = 0;
    proof {
        assert(pv.skip(0) =~= pv);
    }
    while idx < params.len()
        invariant
            params@.len() == pv.len(),
            pv == string_views(params@),
            idx <= pv.len(),
            fold_params(pv.skip(idx as int), result@) == parse_query_spec(query@),
        decreases pv.len() - idx,
    {
        let ghost qv = result@;
        let param = params[idx].as_str();
        proof {
            assert(pv.skip(idx as int).drop_first() =~= pv.skip(idx + 1));
            assert(pv.skip(idx as int)[0] == param@);
        }
        match find_char_in(param, '=') {
            None => {
            },
            Some(i) => {
                let n = param.unicode_len();
                let key = param.substring_char(0, i);
                let raw = param.substring_char(i + 1, n);
                proof {
                    assert(key@ =~= param@.take(i as int));
                    assert(raw@ =~= param@.skip(i + 1));
                }
                match percent_decode(raw) {
                    None => {
                    },
                    Some(value) => {
                        if str_eq(key, "orthography") {
                            result.orthography = value;
                        } else if str_eq(key, "transcription") {
                            result.transcription = value;
                        } else if str_eq(key, "num_syllables") {
                            result.num_syllables = parse_i32(value.as_str());
                        } else if str_eq(key, "stress") {
                            result.stress = string_or_none(value);
                        } else if str_eq(key, "morph_orthography") {
                            result.morph_orthography = string_or_none(value);
                        } else if str_eq(key, "morph_transcription") {
                            result.morph_transcription = string_or_none(value);
                        } else if str_eq(key, "num_morphemes") {
                            result.num_morphemes = parse_i32(value.as_str());
                        } else if str_eq(key, "min_frequency") {
                            result.min_frequency = parse_i32(value.as_str());
                        } else if str_eq(key, "max_frequency") {
                            result.max_frequency = parse_i32(value.as_str());
                        } else if str_eq(key, "part_of_speech") {
                            result.part_of_speech = string_or_none(value);
                        }
                        proof {
                            assert(result@ =~= assign_field(qv, key@, percent_decoded(raw@).unwrap()));
                        }
                    },
                }
            },
        }
        proof {
            assert(result@ == apply_param(qv, pv.skip(idx as int)[0]));
        }
        idx = idx + 1;
    }
    proof {
        assert(pv.skip(pv.len() as int) =~= Seq::<Seq<char>>::empty());
    }
    result
}

} // verus!
