//! User-supplied regular-expression patterns: the hardening pass that
//! escapes metacharacters, and compiled patterns backed by the `regex`
//! crate.

use vstd::prelude::*;
use crate::text::push_char;

verus! {

/// How one character of a pattern is rewritten by the hardening pass:
/// backslashes are doubled, `[` and `{` are escaped, and a `?` directly
/// after `(` is escaped, defanging non-capturing-group and
/// character-class syntax.
pub open spec fn escaped_char(prev: Option<char>, c: char) -> Seq<char> {
    if c == '\\' {
        seq!['\\', '\\']
    } else if c == '[' {
        seq!['\\', '[']
    } else if c == '{' {
        seq!['\\', '{']
    } else if c == '?' && prev == Some('(') {
        seq!['\\', '?']
    } else {
        seq![c]
    }
}

/// The hardened form of a whole pattern.
pub open spec fn escape_spec(s: Seq<char>) -> Seq<char>
    decreases s.len(),
{
    if s.len() == 0 {
        Seq::empty()
    } else {
        let prev = if s.len() >= 2 {
            Some(s[s.len() - 2])
        } else {
            None
        };
        escape_spec(s.drop_last()) + escaped_char(prev, s.last())
    }
}

/// Applies the hardening pass to a pattern.
pub fn escape_pattern(s: &str) -> (r: String)
    ensures
        r@ == escape_spec(s@),
{
    let n: usize = s.unicode_len();
    let mut out = String::new();
    let mut i: usize = 0;
    proof {
        assert(s@.take(0) =~= Seq::<char>::empty());
    }
    while i < n
        invariant
            n == s@.len(),
            i <= n,
            out@ == escape_spec(s@.take(i as int)),
        decreases n - i,
    {
        let c = s.get_char(i);
        let ghost outv = out@;
        proof {
            assert(s@.take(i + 1).drop_last() =~= s@.take(i as int));
            assert(s@.take(i + 1).last() == s@[i as int]);
            if i >= 1 {
                assert(s@.take(i + 1)[i - 1] == s@[i - 1]);
            }
        }
        if c == '\\' || c == '[' || c == '{' {
            push_char(&mut out, '\\');
            push_char(&mut out, c);
            proof {
                assert(out@ =~= outv + seq!['\\', c]);
            }
        } else if c == '?' && i > 0 && s.get_char(i - 1) == '(' {
            push_char(&mut out, '\\');
            push_char(&mut out, '?');
            proof {
                assert(out@ =~= outv + seq!['\\', '?']);
            }
        } else {
            push_char(&mut out, c);
            proof {
                assert(out@ =~= outv + seq![c]);
            }
        }
        i = i + 1;
    }
    proof {
        assert(s@.take(n as int) =~= s@);
    }
    out
}

/// Whether the `regex` crate accepts this (non-empty) pattern.
pub uninterp spec fn regex_valid(pattern: Seq<char>) -> bool;

/// Whether the `regex` crate finds this (non-empty) pattern somewhere
/// in the text: unanchored substring-search semantics.
pub uninterp spec fn regex_found(pattern: Seq<char>, text: Seq<char>) -> bool;

/// Whether a pattern compiles. The empty pattern always does: the
/// `regex` crate accepts it as the empty regular expression.
pub open spec fn pattern_valid(p: Seq<char>) -> bool {
    p.len() == 0 || regex_valid(p)
}

/// Whether a pattern is found in a text. The empty pattern finds the
/// empty match in every text, so it means "match anything".
pub open spec fn pattern_matches(p: Seq<char>, t: Seq<char>) -> bool {
    p.len() == 0 || regex_found(p, t)
}

#[verifier::external_type_specification]
#[verifier::external_body]
pub struct ExRegex(regex::Regex);

/// A compiled pattern together with the text it was compiled from. Its
/// view is that pattern text; only `compile_raw` constructs one, so the
/// two fields always belong together.
pub struct CompiledPattern {
    re: regex::Regex,
    pattern: String,
}

impl View for CompiledPattern {
    type V = Seq<char>;

    closed spec fn view(&self) -> Seq<char> {
        self.pattern@
    }
}

/// Relies on `regex::Regex::new`: whether a pattern compiles is a
/// function of the pattern text alone, and the empty pattern compiles.
#[verifier::external_body]
fn compile_raw(pattern: String) -> (r: Option<CompiledPattern>)
    ensures
        pattern@.len() > 0 ==> (r is Some <==> regex_valid(pattern@)),
        r is Some <==> pattern_valid(pattern@),
        r is Some ==> r.unwrap()@ == pattern@,
{
    match regex::Regex::new(pattern.as_str()) {
        Ok(re) => Some(CompiledPattern { re, pattern }),
        Err(_) => None,
    }
}

impl CompiledPattern {
    /// Relies on `regex::Regex::is_match`: whether a match is found is
    /// a function of the pattern text and the haystack alone, and the
    /// empty pattern is found in every haystack.
    #[verifier::external_body]
    pub fn is_match(&self, text: &str) -> (r: bool)
        ensures
            self@.len() > 0 ==> r == regex_found(self@, text@),
            r == pattern_matches(self@, text@),
    {
        self.re.is_match(text)
    }

    /// The pattern text this was compiled from.
    pub fn pattern_text(&self) -> (r: &str)
        ensures
            r@ == self@,
    {
        self.pattern.as_str()
    }
}

/// Hardens a user-supplied pattern and compiles it; `None` when the
/// hardened pattern still does not compile, which must fail the whole
/// request rather than silently match nothing.
pub fn clean_regex(re: &str) -> (r: Option<CompiledPattern>)
    ensures
        r is Some <==> pattern_valid(escape_spec(re@)),
        r is Some ==> r.unwrap()@ == escape_spec(re@),
{
    let escaped = escape_pattern(re);
    compile_raw(escaped)
}

} // verus!
