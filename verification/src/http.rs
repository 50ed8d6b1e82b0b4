//! Request/response framing for the raw-socket variant: parsing the
//! request head off the initial buffer fill, determining the declared
//! body length, authorizing updates, and assembling responses.

use vstd::prelude::*;
use vstd::string::StringSliceAdditionalSpecFns;
use crate::query::opt_view;
use crate::record::lines_spec;
use crate::store::{Store, all_lines_parse, parsed_records, line_record};
use crate::text::{
    find_char, find_char_in, split_spec, split_on, string_views, str_eq, skip_spaces,
    trim_leading_spaces, parse_len_spec, parse_len, dec_digits, u64_to_dec,
};

verus! {

/// Whether an empty line (the head/body boundary) begins at `j`.
pub open spec fn boundary_at(s: Seq<char>, j: int) -> bool
    recommends
        0 <= j && j + 4 <= s.len(),
{
    s[j] == '\r' && s[j + 1] == '\n' && s[j + 2] == '\r' && s[j + 3] == '\n'
}

/// Index of the first head/body boundary in the buffer, if any.
pub open spec fn head_end(s: Seq<char>) -> Option<int>
    decreases s.len(),
{
    if s.len() < 4 {
        None
    } else if boundary_at(s, 0) {
        Some(0int)
    } else {
        match head_end(s.drop_first()) {
            None => None,
            Some(i) => Some(i + 1),
        }
    }
}

proof fn lemma_head_end_at(s: Seq<char>, k: int)
    requires
        0 <= k,
        k + 4 <= s.len(),
        boundary_at(s, k),
        forall|j: int| 0 <= j < k ==> !boundary_at(s, j),
    ensures
        head_end(s) == Some(k),
    decreases k,
{
    if boundary_at(s, 0) {
        assert(k == 0);
    } else {
        let t = s.drop_first();
        assert(boundary_at(t, k - 1));
        assert forall|j: int| 0 <= j < k - 1 implies !boundary_at(t, j) by {
            assert(t[j] == s[j + 1]);
            assert(t[j + 1] == s[j + 2]);
            assert(t[j + 2] == s[j + 3]);
            assert(t[j + 3] == s[j + 4]);
            assert(!boundary_at(s, j + 1));
        }
        lemma_head_end_at(t, k - 1);
    }
}

proof fn lemma_head_end_none(s: Seq<char>)
    requires
        forall|j: int| 0 <= j && j + 4 <= s.len() ==> !boundary_at(s, j),
    ensures
        head_end(s) is None,
    decreases s.len(),
{
    if s.len() >= 4 {
        let t = s.drop_first();
        assert forall|j: int| 0 <= j && j + 4 <= t.len() implies !boundary_at(t, j) by {
            assert(t[j] == s[j + 1]);
            assert(t[j + 1] == s[j + 2]);
            assert(t[j + 2] == s[j + 3]);
            assert(t[j + 3] == s[j + 4]);
            assert(!boundary_at(s, j + 1));
        }
        lemma_head_end_none(t);
    }
}

/// Finds the first head/body boundary in the buffer.
pub fn find_head_end(s: &str) -> (r: Option<usize>)
    ensures
        match r {
            Some(i) => i + 4 <= s@.len() && head_end(s@) == Some(i as int),
            None => head_end(s@) is None,
        },
{
    let n: usize = s.unicode_len();
    if n < 4 {
        proof {
            lemma_head_end_none(s@);
        }
        return None;
    }
    let mut i: usize = 0;
    while i <= n - 4
        invariant
            n == s@.len(),
            n >= 4,
            i <= n - 3,
            forall|j: int| 0 <= j < i ==> !boundary_at(s@, j),
        decreases n - i,
    {
        if s.get_char(i) == '\r' && s.get_char(i + 1) == '\n' && s.get_char(i + 2) == '\r'
            && s.get_char(i + 3) == '\n' {
            proof {
                lemma_head_end_at(s@, i as int);
            }
            return Some(i);
        }
        i = i + 1;
    }
    proof {
        lemma_head_end_none(s@);
    }
    None
}

/// Whether a header line names the body length: the canonical header
/// spelling, followed by its value.
pub open spec fn is_content_length_line(l: Seq<char>) -> bool {
    l.len() >= 15 && l.take(15) == "Content-Length:"@
}

/// The declared body length: the value of the first `Content-Length`
/// header, leading spaces skipped; `None` when the header is absent or
/// its value unparsable.
pub open spec fn content_length_of(hlines: Seq<Seq<char>>) -> Option<u64>
    decreases hlines.len(),
{
    if hlines.len() == 0 {
        None
    } else if is_content_length_line(hlines[0]) {
        parse_len_spec(skip_spaces(hlines[0].skip(15)))
    } else {
        content_length_of(hlines.drop_first())
    }
}

fn line_content_length(l: &str) -> (r: Option<Option<u64>>)
    ensures
        r is Some <==> is_content_length_line(l@),
        r is Some ==> r.unwrap() == parse_len_spec(skip_spaces(l@.skip(15))),
{
    let n: usize = l.unicode_len();
    if n < 15 {
        return None;
    }
    let prefix = l.substring_char(0, 15);
    proof {
        assert(prefix@ =~= l@.take(15));
    }
    if str_eq(prefix, "Content-Length:") {
        let value = trim_leading_spaces(l.substring_char(15, n));
        Some(parse_len(value))
    } else {
        None
    }
}

/// Scans the header lines (everything after the request line) for the
/// declared body length.
fn scan_content_length(lines: &Vec<String>) -> (r: Option<u64>)
    requires
        lines@.len() >= 1,
    ensures
        r == content_length_of(string_views(lines@).drop_first()),
{
    let ghost hl = string_views(lines@).drop_first();
    let mut j: usize = 1;
    proof {
        assert(hl.skip(0) =~= hl);
    }
    while j < lines.len()
        invariant
            hl == string_views(lines@).drop_first(),
            lines@.len() == hl.len() + 1,
            1 <= j <= lines@.len(),
            content_length_of(hl.skip(j - 1)) == content_length_of(hl),
        decreases lines@.len() - j,
    {
        proof {
            assert(hl.skip(j - 1)[0] == lines@[j as int]@);
            assert(hl.skip(j - 1).drop_first() =~= hl.skip(j as int));
        }
        match line_content_length(lines[j].as_str()) {
            Some(v) => {
                return v;
            },
            None => {
            },
        }
        j = j + 1;
    }
    proof {
        assert(hl.skip(lines@.len() - 1) =~= Seq::<Seq<char>>::empty());
    }
    None
}

/// A parsed request head.
pub struct RequestHead {
    pub method: String,
    pub path: String,
    pub query: Option<String>,
    pub content_length: Option<u64>,
    pub header_len: usize,
}

/// The mathematical shape of a parsed request head.
#[verifier::ext_equal]
pub ghost struct HeadView {
    pub method: Seq<char>,
    pub path: Seq<char>,
    pub query: Option<Seq<char>>,
    pub content_length: Option<u64>,
    pub header_len: int,
}

impl View for RequestHead {
    type V = HeadView;

    open spec fn view(&self) -> HeadView {
        HeadView {
            method: self.method@,
            path: self.path@,
            query: opt_view(self.query),
            content_length: self.content_length,
            header_len: self.header_len as int,
        }
    }
}

/// What the initial buffer fill parses to: the head is everything
/// before the first empty line; its first line is split on spaces into
/// method and target; the target is split on the first `?` into path
/// and query string; the declared body length comes from the headers.
/// A buffer with no boundary or a malformed request line parses to
/// nothing.
pub open spec fn parse_head_spec(s: Seq<char>) -> Option<HeadView> {
    match head_end(s) {
        None => None,
        Some(i) => {
            let lines = lines_spec(s.take(i));
            if lines.len() == 0 {
                None
            } else {
                let rl = split_spec(lines[0], ' ');
                if rl.len() < 2 {
                    None
                } else {
                    let target = rl[1];
                    Some(
                        HeadView {
                            method: rl[0],
                            path: match find_char(target, '?') {
                                None => target,
                                Some(j) => target.take(j),
                            },
                            query: match find_char(target, '?') {
                                None => None,
                                Some(j) => Some(target.skip(j + 1)),
                            },
                            content_length: content_length_of(lines.drop_first()),
                            header_len: i + 4,
                        },
                    )
                }
            }
        },
    }
}

/// Parses the request head off the initial buffer fill.
pub fn parse_request_head(initial: &str) -> (r: Option<RequestHead>)
    ensures
        r is Some <==> parse_head_spec(initial@) is Some,
        r is Some ==> r.unwrap()@ == parse_head_spec(initial@).unwrap(),
{
    let n: usize = initial.unicode_len();
    let i = match find_head_end(initial) {
        None => {
            return None;
        },
        Some(i) => i,
    };
    proof {
        assert(i + 4 <= n);
    }
    let head = initial.substring_char(0, i);
    proof {
        assert(head@ =~= initial@.take(i as int));
    }
    let lines = crate::record::split_lines(head);
    if lines.len() == 0 {
        return None;
    }
    let rl = split_on(lines[0].as_str(), ' ');
    proof {
        assert(string_views(lines@)[0] == lines@[0]@);
        assert(string_views(rl@) == split_spec(lines@[0]@, ' '));
    }
    if rl.len() < 2 {
        return None;
    }
    let method = rl[0].clone();
    let target = rl[1].as_str();
    let tn: usize = target.unicode_len();
    proof {
        assert(string_views(rl@)[0] == rl@[0]@);
        assert(string_views(rl@)[1] == rl@[1]@);
    }
    let (path, query): (String, Option<String>) = match find_char_in(target, '?') {
        None => (target.to_owned(), None),
        Some(j) => (
            {
                let p = target.substring_char(0, j);
                proof {
                    assert(p@ =~= target@.take(j as int));
                }
                p.to_owned()
            },
            Some(
                {
                    let q = target.substring_char(j + 1, tn);
                    proof {
                        assert(q@ =~= target@.skip(j + 1));
                    }
                    q.to_owned()
                },
            ),
        ),
    };
    let content_length = scan_content_length(&lines);
    let h = RequestHead { method, path, query, content_length, header_len: i + 4 };
    proof {
        assert(h@ =~= parse_head_spec(initial@).unwrap());
    }
    Some(h)
}

/// Whether the query string authorizes an update: some `&`-separated
/// parameter is exactly `password=` followed by the shared secret.
pub open spec fn authorized_spec(q: Seq<char>, secret: Seq<char>) -> bool {
    exists|k: int|
        0 <= k < split_spec(q, '&').len() && split_spec(q, '&')[k] == "password="@ + secret
}

/// Checks the `password=` parameter of the query string against the
/// shared secret.
pub fn authorize(raw_query: &str, secret: &str) -> (r: bool)
    ensures
        r == authorized_spec(raw_query@, secret@),
{
    let mut expected: String = "password=".to_owned();
    expected.append(secret);
    let params = split_on(raw_query, '&');
    let ghost pv = string_views(params@);
    let mut k: usize = 0;
    while k < params.len()
        invariant
            pv == string_views(params@),
            pv == split_spec(raw_query@, '&'),
            expected@ == "password="@ + secret@,
            k <= pv.len(),
            params@.len() == pv.len(),
            forall|j: int| 0 <= j < k ==> pv[j] != "password="@ + secret@,
        decreases pv.len() - k,
    {
        if str_eq(params[k].as_str(), expected.as_str()) {
            proof {
                assert(pv[k as int] == params@[k as int]@);
                assert(0 <= k < pv.len() && pv[k as int] == "password="@ + secret@);
            }
            return true;
        }
        proof {
            assert(pv[k as int] == params@[k as int]@);
        }
        k = k + 1;
    }
    false
}

/// The five statuses a response can carry.
#[derive(Clone, Copy, Debug, PartialEq, Eq, Structural)]
pub enum Status {
    Okay,
    BadRequest,
    NotFound,
    Forbidden,
    InternalError,
}

impl Status {
    /// The numeric status code.
    pub open spec fn code_spec(self) -> int {
        match self {
            Status::Okay => 200,
            Status::BadRequest => 400,
            Status::NotFound => 404,
            Status::Forbidden => 403,
            Status::InternalError => 500,
        }
    }

    /// The reason phrase.
    pub open spec fn reason_spec(self) -> Seq<char> {
        match self {
            Status::Okay => "OK"@,
            Status::BadRequest => "Bad Request"@,
            Status::NotFound => "Not Found"@,
            Status::Forbidden => "Forbidden"@,
            Status::InternalError => "Internal Server Error"@,
        }
    }

    /// The numeric status code.
    pub fn code(self) -> (r: u16)
        ensures
            r == self.code_spec(),
    {
        match self {
            Status::Okay => 200,
            Status::BadRequest => 400,
            Status::NotFound => 404,
            Status::Forbidden => 403,
            Status::InternalError => 500,
        }
    }

    fn reason(self) -> (r: &'static str)
        ensures
            r@ == self.reason_spec(),
    {
        match self {
            Status::Okay => "OK",
            Status::BadRequest => "Bad Request",
            Status::NotFound => "Not Found",
            Status::Forbidden => "Forbidden",
            Status::InternalError => "Internal Server Error",
        }
    }
}

/// The full response text: a fixed status line, a `Content-Length`
/// header computed from the body's byte length, a blank line, then the
/// body — the same shape for success and error responses.
pub open spec fn response_spec(status: Status, body: Seq<char>, body_bytes: nat) -> Seq<char> {
    "HTTP/1.1 "@ + dec_digits(status.code_spec() as nat) + " "@ + status.reason_spec()
        + "\r\nContent-Length: "@ + dec_digits(body_bytes) + "\r\n\r\n"@ + body
}

/// Assembles a response. The body length is the byte length reported
/// by `str::len`.
pub fn build_response(status: Status, body: &str) -> (r: String)
    ensures
        r@ == response_spec(status, body@, body.len() as nat),
{
    let mut out: String = "HTTP/1.1 ".to_owned();
    out.append(u64_to_dec(status.code() as u64).as_str());
    out.append(" ");
    out.append(status.reason());
    out.append("\r\nContent-Length: ");
    out.append(u64_to_dec(body.len() as u64).as_str());
    out.append("\r\n\r\n");
    out.append(body);
    proof {
        assert(out@ =~= response_spec(status, body@, body.len() as nat));
    }
    out
}

/// The declared body length: prefer the `Content-Length` value; when
/// it is absent or unparsable, fall back to the number of body bytes
/// already captured by the initial read — a degraded heuristic that is
/// only correct when the client sends the header or the request fits
/// in one read.
pub open spec fn body_length_rule(content_length: Option<u64>, already_read: u64) -> u64 {
    match content_length {
        Some(n) => n,
        None => already_read,
    }
}

/// Applies the declared-body-length rule.
pub fn declared_body_length(content_length: Option<u64>, already_read: u64) -> (r: u64)
    ensures
        r == body_length_rule(content_length, already_read),
{
    match content_length {
        Some(n) => n,
        None => already_read,
    }
}

/// How many more body bytes must still be read from the connection.
pub fn remaining_bytes(declared: u64, received: u64) -> (r: u64)
    ensures
        received >= declared ==> r == 0,
        received < declared ==> r == declared - received,
{
    if received >= declared {
        0
    } else {
        declared - received
    }
}

/// The outcome of an update request.
#[derive(Clone, Copy, Debug, PartialEq, Eq, Structural)]
pub enum UpdateOutcome {
    /// The password was missing or wrong; nothing was read or changed.
    Forbidden,
    /// Fewer body bytes arrived than the declared length; nothing was
    /// committed.
    IncompleteBody,
    /// The line at this index is malformed; the prior store stands.
    BadLine(usize),
    /// The whole store was replaced.
    Replaced,
}

/// Decides an update request: authorization first, then body
/// completeness, then the all-or-nothing reload. The store changes
/// only when the outcome is `Replaced`.
pub fn handle_update(
    store: &mut Store,
    raw_query: &str,
    secret: &str,
    declared_len: usize,
    body: &str,
) -> (r: UpdateOutcome)
    ensures
        !authorized_spec(raw_query@, secret@) ==> r == UpdateOutcome::Forbidden && final(store)@
            == old(store)@,
        authorized_spec(raw_query@, secret@) && body.len() < declared_len ==> r
            == UpdateOutcome::IncompleteBody && final(store)@ == old(store)@,
        authorized_spec(raw_query@, secret@) && body.len() >= declared_len ==> match r {
            UpdateOutcome::Replaced => all_lines_parse(lines_spec(body@)) && final(store)@
                == parsed_records(lines_spec(body@)),
            UpdateOutcome::BadLine(k) => final(store)@ == old(store)@ && k < lines_spec(
                body@,
            ).len() && line_record(lines_spec(body@)[k as int]) is None && (forall|j: int|
                0 <= j < k ==> line_record(lines_spec(body@)[j]) is Some),
            _ => false,
        },
{
    if !authorize(raw_query, secret) {
        return UpdateOutcome::Forbidden;
    }
    if body.len() < declared_len {
        return UpdateOutcome::IncompleteBody;
    }
    match store.reload(body) {
        Ok(()) => UpdateOutcome::Replaced,
        Err(k) => UpdateOutcome::BadLine(k),
    }
}

/// The three routes of the service, and everything else.
#[derive(Clone, Copy, Debug, PartialEq, Eq, Structural)]
pub enum Route {
    Landing,
    Search,
    Update,
    Unknown,
}

/// Which route a method and path name.
pub open spec fn route_spec(method: Seq<char>, path: Seq<char>) -> Route {
    if method == "GET"@ && path == "/"@ {
        Route::Landing
    } else if method == "GET"@ && path == "/search"@ {
        Route::Search
    } else if method == "POST"@ && path == "/update"@ {
        Route::Update
    } else {
        Route::Unknown
    }
}

/// Routes a parsed request.
pub fn route_request(method: &str, path: &str) -> (r: Route)
    ensures
        r == route_spec(method@, path@),
{
    proof {
        reveal_strlit("GET");
        reveal_strlit("POST");
        assert("GET"@.len() == 3);
        assert("POST"@.len() == 4);
        assert("GET"@ != "POST"@);
    }
    if str_eq(method, "GET") {
        if str_eq(path, "/") {
            return Route::Landing;
        }
        if str_eq(path, "/search") {
            return Route::Search;
        }
        return Route::Unknown;
    }
    if str_eq(method, "POST") && str_eq(path, "/update") {
        return Route::Update;
    }
    Route::Unknown
}

} // verus!
