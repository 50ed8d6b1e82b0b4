//! Character-level text utilities: searching, splitting, equality,
//! decimal parsing and rendering. Everything here is specified over
//! `Seq<char>` views.

use vstd::prelude::*;

verus! {

/// Relies on std's `String::push`: appends exactly the one character to
/// the end of the string.
#[verifier::external_body]
pub fn push_char(s: &mut String, c: char)
    ensures
        final(s)@ == old(s)@.push(c),
{
    s.push(c);
}

/// The views of a sequence of strings.
pub open spec fn string_views(v: Seq<String>) -> Seq<Seq<char>> {
    v.map_values(|p: String| p@)
}

/// Index of the first occurrence of `c` in `s`, if any.
pub open spec fn find_char(s: Seq<char>, c: char) -> Option<int>
    decreases s.len(),
{
    if s.len() == 0 {
        None
    } else if s[0] == c {
        Some(0int)
    } else {
        match find_char(s.drop_first(), c) {
            None => None,
            Some(i) => Some(i + 1),
        }
    }
}

pub proof fn lemma_find_char_at(s: Seq<char>, c: char, k: int)
    requires
        0 <= k < s.len(),
        s[k] == c,
        forall|j: int| 0 <= j < k ==> s[j] != c,
    ensures
        find_char(s, c) == Some(k),
    decreases k,
{
    if s[0] == c {
        assert(k == 0);
    } else {
        let t = s.drop_first();
        assert(t[k - 1] == c);
        assert forall|j: int| 0 <= j < k - 1 implies t[j] != c by {
            assert(t[j] == s[j + 1]);
        }
        lemma_find_char_at(t, c, k - 1);
    }
}

pub proof fn lemma_find_char_none(s: Seq<char>, c: char)
    requires
        forall|j: int| 0 <= j < s.len() ==> s[j] != c,
    ensures
        find_char(s, c) is None,
    decreases s.len(),
{
    if s.len() > 0 {
        let t = s.drop_first();
        assert forall|j: int| 0 <= j < t.len() implies t[j] != c by {
            assert(t[j] == s[j + 1]);
        }
        lemma_find_char_none(t, c);
    }
}

/// Index of the first occurrence of `c` in `s`, by a forward scan.
pub fn find_char_in(s: &str, c: char) -> (r: Option<usize>)
    ensures
        match r {
            Some(i) => i < s@.len() && s@[i as int] == c && find_char(s@, c) == Some(i as int),
            None => find_char(s@, c) is None,
        },
{
    let n: usize = s.unicode_len();
    let mut i: usize = 0;
    while i < n
        invariant
            n == s@.len(),
            i <= n,
            forall|j: int| 0 <= j < i ==> s@[j] != c,
        decreases n - i,
    {
        if s.get_char(i) == c {
            proof {
                lemma_find_char_at(s@, c, i as int);
            }
            return Some(i);
        }
        i = i + 1;
    }
    proof {
        lemma_find_char_none(s@, c);
    }
    None
}

/// Character-wise string equality.
pub fn str_eq(a: &str, b: &str) -> (r: bool)
    ensures
        r == (a@ == b@),
{
    let na: usize = a.unicode_len();
    let nb: usize = b.unicode_len();
    if na != nb {
        return false;
    }
    let mut i: usize = 0;
    while i < na
        invariant
            na == a@.len(),
            na == b@.len(),
            i <= na,
            forall|j: int| 0 <= j < i ==> a@[j] == b@[j],
        decreases na - i,
    {
        if a.get_char(i) != b.get_char(i) {
            return false;
        }
        i = i + 1;
    }
    proof {
        assert(a@ =~= b@);
    }
    true
}

/// The pieces of `s` between occurrences of the separator `sep`: always
/// at least one piece, one more piece than separators.
pub open spec fn split_spec(s: Seq<char>, sep: char) -> Seq<Seq<char>>
    decreases s.len(),
{
    if s.len() == 0 {
        seq![Seq::<char>::empty()]
    } else if s[0] == sep {
        seq![Seq::<char>::empty()] + split_spec(s.drop_first(), sep)
    } else {
        let rest = split_spec(s.drop_first(), sep);
        seq![seq![s[0]] + rest[0]] + rest.drop_first()
    }
}

pub proof fn lemma_split_nonempty(s: Seq<char>, sep: char)
    ensures
        split_spec(s, sep).len() >= 1,
    decreases s.len(),
{
    if s.len() > 0 {
        lemma_split_nonempty(s.drop_first(), sep);
    }
}

/// `cur` prepended onto the first piece of `rest`: the shape of a
/// partly-scanned split.
spec fn glue(cur: Seq<char>, rest: Seq<Seq<char>>) -> Seq<Seq<char>>
    recommends
        rest.len() >= 1,
{
    seq![cur + rest[0]] + rest.drop_first()
}

/// Splits `s` on every occurrence of `sep`.
pub fn split_on(s: &str, sep: char) -> (r: Vec<String>)
    ensures
        string_views(r@) == split_spec(s@, sep),
        r@.len() >= 1,
{
    let n: usize = s.unicode_len();
    let mut done: Vec<String> = Vec::new();
    let mut cur: String = String::new();
    let mut i: usize = 0;
    proof {
        lemma_split_nonempty(s@, sep);
        assert(s@.skip(0) =~= s@);
        assert(string_views(done@) + glue(cur@, split_spec(s@.skip(0), sep)) =~~= split_spec(
            s@,
            sep,
        ));
    }
    while i < n
        invariant
            n == s@.len(),
            i <= n,
            string_views(done@) + glue(cur@, split_spec(s@.skip(i as int), sep)) =~~= split_spec(
                s@,
                sep,
            ),
        decreases n - i,
    {
        let ghost tail = s@.skip(i as int);
        let ghost tail2 = s@.skip(i + 1);
        let c = s.get_char(i);
        proof {
            lemma_split_nonempty(tail2, sep);
            assert(tail.drop_first() =~= tail2);
            assert(tail[0] == s@[i as int]);
        }
        if c == sep {
            let ghost dv = string_views(done@);
            let ghost cv = cur@;
            done.push(cur);
            cur = String::new();
            proof {
                assert(string_views(done@) =~~= dv.push(cv));
                assert(glue(cv, split_spec(tail, sep)) =~~= seq![cv] + split_spec(tail2, sep));
                assert(glue(cur@, split_spec(tail2, sep)) =~~= split_spec(tail2, sep));
                assert(string_views(done@) + glue(cur@, split_spec(tail2, sep)) =~~= split_spec(
                    s@,
                    sep,
                ));
            }
        } else {
            let ghost cv = cur@;
            push_char(&mut cur, c);
            proof {
                assert(glue(cv, split_spec(tail, sep)) =~~= glue(cur@, split_spec(tail2, sep)));
            }
        }
        i = i + 1;
    }
    proof {
        assert(s@.skip(n as int) =~= Seq::<char>::empty());
        assert(glue(cur@, split_spec(s@.skip(n as int), sep)) =~~= seq![cur@]);
    }
    let ghost dv = string_views(done@);
    let ghost cv = cur@;
    done.push(cur);
    proof {
        assert(string_views(done@) =~~= dv.push(cv));
        assert(string_views(done@) =~~= split_spec(s@, sep));
    }
    done
}

pub open spec fn is_digit_char(c: char) -> bool {
    48 <= (c as u32) <= 57
}

pub open spec fn digit_value(c: char) -> int {
    (c as u32) - 48
}

pub open spec fn all_digits(s: Seq<char>) -> bool {
    forall|i: int| 0 <= i < s.len() ==> is_digit_char(s[i])
}

/// The number denoted by a sequence of decimal digit characters.
pub open spec fn digits_value(s: Seq<char>) -> int
    decreases s.len(),
{
    if s.len() == 0 {
        0
    } else {
        digits_value(s.drop_last()) * 10 + digit_value(s.last())
    }
}

/// What a string denotes as an optionally signed decimal integer: a
/// `-` or `+` sign, then one or more digits, nothing else.
pub open spec fn int_of_chars(s: Seq<char>) -> Option<int> {
    if s.len() == 0 {
        None
    } else {
        let neg = s[0] == '-';
        let ds = if s[0] == '-' || s[0] == '+' {
            s.drop_first()
        } else {
            s
        };
        if ds.len() > 0 && all_digits(ds) {
            Some(
                if neg {
                    -digits_value(ds)
                } else {
                    digits_value(ds)
                },
            )
        } else {
            None
        }
    }
}

/// What a string yields as an `i32`: the denoted integer when it fits.
pub open spec fn parse_i32_spec(s: Seq<char>) -> Option<i32> {
    match int_of_chars(s) {
        Some(v) => if i32::MIN <= v <= i32::MAX {
            Some(v as i32)
        } else {
            None
        },
        None => None,
    }
}

/// What a string yields as a length field: digits only, value at most
/// 2147483648. A larger declared length counts as unparsable.
pub open spec fn parse_len_spec(s: Seq<char>) -> Option<u64> {
    if s.len() > 0 && all_digits(s) && digits_value(s) <= 2147483648 {
        Some(digits_value(s) as u64)
    } else {
        None
    }
}

proof fn lemma_digits_value_nonneg(s: Seq<char>)
    requires
        all_digits(s),
    ensures
        digits_value(s) >= 0,
    decreases s.len(),
{
    if s.len() > 0 {
        assert(all_digits(s.drop_last()));
        lemma_digits_value_nonneg(s.drop_last());
    }
}

/// Scans the digits of `s` from position `start` on; reports the value
/// unless it exceeds `u64::MAX`.
fn parse_digits(s: &str, start: usize) -> (r: Option<u64>)
    requires
        start <= s@.len(),
    ensures
        ({
            let ds = s@.skip(start as int);
            match r {
                Some(v) => ds.len() > 0 && all_digits(ds) && digits_value(ds) == v && v
                    <= 2147483648,
                None => ds.len() == 0 || !all_digits(ds) || digits_value(ds) > 2147483648,
            }
        }),
{
    let n: usize = s.unicode_len();
    if start >= n {
        return None;
    }
    let mut acc: u64 = 0;
    let mut big: bool = false;
    let mut i: usize = start;
    proof {
        assert(s@.subrange(start as int, start as int) =~= Seq::<char>::empty());
    }
    while i < n
        invariant
            n == s@.len(),
            start <= i <= n,
            forall|j: int| start <= j < i ==> is_digit_char(s@[j]),
            !big ==> acc <= 2147483648 && acc == digits_value(
                s@.subrange(start as int, i as int),
            ),
            big ==> digits_value(s@.subrange(start as int, i as int)) > 2147483648,
        decreases n - i,
    {
        let c = s.get_char(i);
        let cv = c as u32;
        if !(48 <= cv && cv <= 57) {
            proof {
                let ds = s@.skip(start as int);
                assert(ds[i - start] == s@[i as int]);
                assert(!is_digit_char(ds[i - start]));
            }
            return None;
        }
        let d: u64 = (cv - 48) as u64;
        proof {
            let seen = s@.subrange(start as int, i as int);
            let seen2 = s@.subrange(start as int, i + 1);
            assert(seen2.drop_last() =~= seen);
            assert(seen2.last() == s@[i as int]);
            assert(digits_value(seen2) == digits_value(seen) * 10 + digit_value(c));
        }
        if big {
            // the denoted value only grows as digits are appended
        } else {
            let next: u64 = acc * 10 + d;
            if next > 2147483648 {
                big = true;
            } else {
                acc = next;
            }
        }
        i = i + 1;
    }
    proof {
        assert(s@.subrange(start as int, n as int) =~= s@.skip(start as int));
        let ds = s@.skip(start as int);
        assert forall|k: int| 0 <= k < ds.len() implies is_digit_char(ds[k]) by {
            assert(ds[k] == s@[start + k]);
        }
    }
    if big {
        None
    } else {
        Some(acc)
    }
}

/// Parses an optionally signed decimal integer: sign, digits, nothing
/// else, value in `i32` range.
pub fn parse_i32(s: &str) -> (r: Option<i32>)
    ensures
        r == parse_i32_spec(s@),
{
    let n: usize = s.unicode_len();
    if n == 0 {
        return None;
    }
    let first = s.get_char(0);
    let signed = first == '-' || first == '+';
    let neg = first == '-';
    let start: usize = if signed {
        1
    } else {
        0
    };
    proof {
        if signed {
            assert(s@.skip(1) =~= s@.drop_first());
        } else {
            assert(s@.skip(0) =~= s@);
        }
    }
    match parse_digits(s, start) {
        None => None,
        Some(v) => {
            if neg {
                if v <= 2147483648 {
                    Some((-(v as i64)) as i32)
                } else {
                    None
                }
            } else {
                if v <= 2147483647 {
                    Some(v as i32)
                } else {
                    None
                }
            }
        },
    }
}

/// Parses an unsigned decimal length field: digits only, bounded.
pub fn parse_len(s: &str) -> (r: Option<u64>)
    ensures
        r == parse_len_spec(s@),
{
    proof {
        assert(s@.skip(0) =~= s@);
        if all_digits(s@) {
            lemma_digits_value_nonneg(s@);
        }
    }
    match parse_digits(s, 0) {
        None => None,
        Some(v) => Some(v),
    }
}

pub open spec fn dec_digit_char(d: int) -> char {
    if d == 0 {
        '0'
    } else if d == 1 {
        '1'
    } else if d == 2 {
        '2'
    } else if d == 3 {
        '3'
    } else if d == 4 {
        '4'
    } else if d == 5 {
        '5'
    } else if d == 6 {
        '6'
    } else if d == 7 {
        '7'
    } else if d == 8 {
        '8'
    } else {
        '9'
    }
}

/// The decimal rendering of a number, most significant digit first.
pub open spec fn dec_digits(n: nat) -> Seq<char>
    decreases n,
{
    if n < 10 {
        seq![dec_digit_char(n as int)]
    } else {
        dec_digits(n / 10) + seq![dec_digit_char((n % 10) as int)]
    }
}

fn dec_digit_of(d: u64) -> (c: char)
    requires
        d < 10,
    ensures
        c == dec_digit_char(d as int),
{
    if d == 0 {
        '0'
    } else if d == 1 {
        '1'
    } else if d == 2 {
        '2'
    } else if d == 3 {
        '3'
    } else if d == 4 {
        '4'
    } else if d == 5 {
        '5'
    } else if d == 6 {
        '6'
    } else if d == 7 {
        '7'
    } else if d == 8 {
        '8'
    } else {
        '9'
    }
}

/// Renders a number in decimal.
pub fn u64_to_dec(n: u64) -> (r: String)
    ensures
        r@ == dec_digits(n as nat),
    decreases n,
{
    if n < 10 {
        let mut s = String::new();
        push_char(&mut s, dec_digit_of(n));
        proof {
            assert(s@ =~= dec_digits(n as nat));
        }
        s
    } else {
        let mut s = u64_to_dec(n / 10);
        push_char(&mut s, dec_digit_of(n % 10));
        proof {
            assert(s@ =~= dec_digits(n as nat));
        }
        s
    }
}

/// `s` with any leading space characters removed.
pub open spec fn skip_spaces(s: Seq<char>) -> Seq<char>
    decreases s.len(),
{
    if s.len() > 0 && s[0] == ' ' {
        skip_spaces(s.drop_first())
    } else {
        s
    }
}

proof fn lemma_skip_spaces_at(s: Seq<char>, k: int)
    requires
        0 <= k <= s.len(),
        forall|j: int| 0 <= j < k ==> s[j] == ' ',
        k < s.len() ==> s[k] != ' ',
    ensures
        skip_spaces(s) == s.skip(k),
    decreases k,
{
    if k == 0 {
        assert(s.skip(0) =~= s);
    } else {
        let t = s.drop_first();
        assert forall|j: int| 0 <= j < k - 1 implies t[j] == ' ' by {
            assert(t[j] == s[j + 1]);
        }
        assert(k - 1 < t.len() ==> t[k - 1] != ' ');
        lemma_skip_spaces_at(t, k - 1);
        assert(t.skip(k - 1) =~= s.skip(k));
    }
}

/// Removes leading spaces.
pub fn trim_leading_spaces(s: &str) -> (r: &str)
    ensures
        r@ == skip_spaces(s@),
{
    let n: usize = s.unicode_len();
    let mut i: usize = 0;
    while i < n
        invariant
            n == s@.len(),
            i <= n,
            forall|j: int| 0 <= j < i ==> s@[j] == ' ',
        decreases n - i,
    {
        if s.get_char(i) != ' ' {
            proof {
                lemma_skip_spaces_at(s@, i as int);
            }
            return s.substring_char(i, n);
        }
        i = i + 1;
    }
    proof {
        lemma_skip_spaces_at(s@, n as int);
        assert(s@.skip(n as int) =~= Seq::<char>::empty());
    }
    s.substring_char(n, n)
}

} // verus!
