//! The header parser: from the header block of a request to its method,
//! path, version, content length and content type.

use vstd::prelude::*;
use vstd::slice::slice_subrange;
use vstd::utf8::{decode_utf8, valid_utf8};

use crate::frame::{boundary_of, marker, marker_at, scan_frame};
use crate::search::{
    first_from, lemma_first_from_found, lemma_first_from_none, lemma_first_from_sound, occurs_at,
};
use crate::text::{chars_of, digits_value, is_digit, string_of, utf8_text};

verus! {

/// The part of a header block that does not follow the grammar.
#[derive(Clone, Copy, Debug, PartialEq, Eq, Structural)]
pub enum HeaderPart {
    /// The request line.
    FirstLine,
    /// The digits of `content-length` do not fit in `usize`.
    ContentLength,
}

/// Why a byte buffer does not yield a request header.
#[derive(Clone, Copy, Debug, PartialEq, Eq, Structural)]
pub enum RequestError {
    /// No `\r\n\r\n` yet: more bytes are needed.
    BoundaryNotFound,
    /// The header block is not valid UTF-8.
    Encoding,
    /// The header block breaks the grammar.
    Malformed(HeaderPart),
}

/// The fields of a request header, as values.
pub struct HeaderFields {
    pub method: Seq<char>,
    pub path: Seq<char>,
    pub http_version: Seq<char>,
    pub content_length: Option<nat>,
    pub content_type: Option<Seq<char>>,
}

/// The request line and the two headers that the router and the body
/// assembler read.
#[derive(Debug, PartialEq, Eq)]
pub struct HTTPRequestHeader {
    pub method: String,
    pub path: String,
    pub http_version: String,
    pub content_length: Option<usize>,
    pub content_type: Option<String>,
}

impl View for HTTPRequestHeader {
    type V = HeaderFields;

    open spec fn view(&self) -> HeaderFields {
        HeaderFields {
            method: self.method@,
            path: self.path@,
            http_version: self.http_version@,
            content_length: match self.content_length {
                Some(n) => Some(n as nat),
                None => None,
            },
            content_type: match self.content_type {
                Some(t) => Some(t@),
                None => None,
            },
        }
    }
}

/// A request header and the body that came with it.
#[derive(Debug, PartialEq, Eq)]
pub struct HTTPRequest(pub HTTPRequestHeader, pub Vec<u8>);

/// A request header and the index in the byte buffer at which its body
/// starts.
pub struct DeconstructedHTTPRequest(pub HTTPRequestHeader, pub usize);

// ---------------------------------------------------------------------------
// The grammar
// ---------------------------------------------------------------------------

/// An ASCII upper-case letter.
pub open spec fn is_upper(c: char) -> bool {
    'A' <= c <= 'Z'
}

/// White space: the characters with the Unicode `White_Space` property,
/// which is the class `\s` of regular expressions.
pub open spec fn is_space(c: char) -> bool {
    ||| '\t' <= c <= '\r'
    ||| c == ' '
    ||| c == '\u{85}'
    ||| c == '\u{A0}'
    ||| c == '\u{1680}'
    ||| '\u{2000}' <= c <= '\u{200A}'
    ||| c == '\u{2028}'
    ||| c == '\u{2029}'
    ||| c == '\u{202F}'
    ||| c == '\u{205F}'
    ||| c == '\u{3000}'
}

/// Whether `c` is white space.
fn space_char(c: char) -> (r: bool)
    ensures
        r == is_space(c),
{
    ('\t' <= c && c <= '\r') || c == ' ' || c == '\u{85}' || c == '\u{A0}' || c == '\u{1680}'
        || ('\u{2000}' <= c && c <= '\u{200A}') || c == '\u{2028}' || c == '\u{2029}' || c
        == '\u{202F}' || c == '\u{205F}' || c == '\u{3000}'
}

/// The classes of characters that the request line is made of.
#[derive(Clone, Copy, PartialEq, Eq, Structural)]
pub enum CharClass {
    Upper,
    Space,
    NonSpace,
    Digit,
}

impl CharClass {
    pub open spec fn holds(self, c: char) -> bool {
        match self {
            CharClass::Upper => is_upper(c),
            CharClass::Space => is_space(c),
            CharClass::NonSpace => !is_space(c),
            CharClass::Digit => is_digit(c),
        }
    }

    pub fn contains(self, c: char) -> (r: bool)
        ensures
            r == self.holds(c),
    {
        match self {
            CharClass::Upper => 'A' <= c && c <= 'Z',
            CharClass::Space => space_char(c),
            CharClass::NonSpace => !space_char(c),
            CharClass::Digit => '0' <= c && c <= '9',
        }
    }
}

/// The number of characters of class `k` that follow one another from index
/// `i` of `s`.
pub open spec fn span(s: Seq<char>, i: int, k: CharClass) -> int
    decreases s.len() - i,
{
    if 0 <= i < s.len() && k.holds(s[i]) {
        1 + span(s, i + 1, k)
    } else {
        0
    }
}

/// `HTTP/` followed by a digit, a dot and a digit.
pub open spec fn is_version_text(t: Seq<char>) -> bool {
    &&& t.len() == 8
    &&& t.subrange(0, 5) == seq!['H', 'T', 'T', 'P', '/']
    &&& is_digit(t[5])
    &&& t[6] == '.'
    &&& is_digit(t[7])
}

/// The method, path and version of a request line
/// `METHOD SP PATH SP HTTP/D.D`, where a separator is a run of white space,
/// the method is upper-case letters and the path is a `/` and the
/// characters up to the next white space.
pub open spec fn request_line(line: Seq<char>) -> Option<(Seq<char>, Seq<char>, Seq<char>)> {
    let m = span(line, 0, CharClass::Upper);
    let s1 = span(line, m, CharClass::Space);
    let p0 = m + s1;
    let pl = span(line, p0, CharClass::NonSpace);
    let s2 = span(line, p0 + pl, CharClass::Space);
    let v0 = p0 + pl + s2;
    if m > 0 && s1 > 0 && p0 < line.len() && line[p0] == '/' && s2 > 0 && is_version_text(
        line.subrange(v0, line.len() as int),
    ) {
        Some((line.subrange(0, m), line.subrange(p0, p0 + pl), line.subrange(v0 + 5, v0 + 8)))
    } else {
        None
    }
}

/// A line terminator `\r\n` starts at index `i` of `s`.
pub open spec fn crlf_at(s: Seq<char>, i: int) -> bool {
    0 <= i && i + 1 < s.len() && s[i] == '\r' && s[i + 1] == '\n'
}

/// The search predicate for a line terminator.
pub open spec fn crlf() -> spec_fn(Seq<char>, int) -> bool {
    |s: Seq<char>, i: int| crlf_at(s, i)
}

/// The text up to the first line terminator, or all of it.
pub open spec fn first_line(text: Seq<char>) -> Seq<char> {
    match first_from(text, 0, crlf()) {
        Some(i) => text.subrange(0, i),
        None => text,
    }
}

/// The text after the first line terminator, or nothing.
pub open spec fn after_first_line(text: Seq<char>) -> Seq<char> {
    match first_from(text, 0, crlf()) {
        Some(i) => text.subrange(i + 2, text.len() as int),
        None => Seq::empty(),
    }
}

/// `content-length: `, matched with its case.
pub open spec fn length_name() -> Seq<char> {
    seq!['c', 'o', 'n', 't', 'e', 'n', 't', '-', 'l', 'e', 'n', 'g', 't', 'h', ':', ' ']
}

/// `Content-Type: `, matched with its case.
pub open spec fn content_type_name() -> Seq<char> {
    seq!['C', 'o', 'n', 't', 'e', 'n', 't', '-', 'T', 'y', 'p', 'e', ':', ' ']
}

/// `name` occurs at index `i` of `s`, followed by a digit where `digit_after`
/// holds.
pub open spec fn field_at(s: Seq<char>, name: Seq<char>, digit_after: bool, i: int) -> bool {
    occurs_at(s, name, i) && (digit_after ==> i + name.len() < s.len() && is_digit(
        s[i + name.len()],
    ))
}

/// The search predicate for a header name.
pub open spec fn field(name: Seq<char>, digit_after: bool) -> spec_fn(Seq<char>, int) -> bool {
    |s: Seq<char>, i: int| field_at(s, name, digit_after, i)
}

/// The value of the first `content-length: ` that digits follow.
pub open spec fn content_length_of(rest: Seq<char>) -> Option<nat> {
    match first_from(rest, 0, field(length_name(), true)) {
        Some(i) => {
            let start = i + 16;
            Some(digits_value(rest.subrange(start, start + span(rest, start, CharClass::Digit))))
        },
        None => None,
    }
}

/// What follows the first `Content-Type: ` up to the end of its line.
pub open spec fn content_type_of(rest: Seq<char>) -> Option<Seq<char>> {
    match first_from(rest, 0, field(content_type_name(), false)) {
        Some(i) => {
            let start = i + 14;
            match first_from(rest, start, crlf()) {
                Some(e) => Some(rest.subrange(start, e)),
                None => Some(rest.subrange(start, rest.len() as int)),
            }
        },
        None => None,
    }
}

/// What the header parser makes of a header block.
pub open spec fn parse_header(text: Seq<char>) -> Result<HeaderFields, RequestError> {
    match request_line(first_line(text)) {
        None => Err(RequestError::Malformed(HeaderPart::FirstLine)),
        Some((m, p, v)) => {
            let rest = after_first_line(text);
            let length = content_length_of(rest);
            if length matches Some(n) && n > usize::MAX {
                Err(RequestError::Malformed(HeaderPart::ContentLength))
            } else {
                Ok(
                    HeaderFields {
                        method: m,
                        path: p,
                        http_version: v,
                        content_length: length,
                        content_type: content_type_of(rest),
                    },
                )
            }
        },
    }
}

/// What the framer and the header parser make of a byte buffer: the header
/// fields and the index at which the body starts.
pub open spec fn parse_request(b: Seq<u8>) -> Result<(HeaderFields, int), RequestError> {
    match boundary_of(b) {
        None => Err(RequestError::BoundaryNotFound),
        Some(k) => {
            let head = b.subrange(0, k);
            if !valid_utf8(head) {
                Err(RequestError::Encoding)
            } else {
                match parse_header(decode_utf8(head)) {
                    Ok(f) => Ok((f, k + 4)),
                    Err(e) => Err(e),
                }
            }
        },
    }
}


// ---------------------------------------------------------------------------
// The scanners
// ---------------------------------------------------------------------------

/// A new vector holding `v[from..to]`.
fn sub_vec(v: &Vec<char>, from: usize, to: usize) -> (r: Vec<char>)
    requires
        from <= to <= v.len(),
    ensures
        r@ == v@.subrange(from as int, to as int),
{
    let mut r: Vec<char> = Vec::new();
    let mut i: usize = from;
    while i < to
        invariant
            from <= i <= to <= v.len(),
            r@ == v@.subrange(from as int, i as int),
        decreases to - i,
    {
        r.push(v[i]);
        assert(v@.subrange(from as int, i + 1) =~= v@.subrange(from as int, i as int).push(
            v@[i as int],
        ));
        i = i + 1;
    }
    r
}

/// The length of the run of characters of class `k` from index `i` of `s`.
fn span_of(s: &Vec<char>, i: usize, k: CharClass) -> (r: usize)
    requires
        i <= s.len(),
    ensures
        r == span(s@, i as int, k),
        i + r <= s.len(),
{
    let mut j: usize = i;
    while j < s.len() && k.contains(s[j])
        invariant
            i <= j <= s.len(),
            span(s@, i as int, k) == (j - i) + span(s@, j as int, k),
        decreases s.len() - j,
    {
        j = j + 1;
    }
    j - i
}

/// `pat` occurs at index `i` of `s`.
fn occurs(s: &Vec<char>, pat: &Vec<char>, i: usize) -> (r: bool)
    ensures
        r == occurs_at(s@, pat@, i as int),
{
    if i > s.len() || pat.len() > s.len() - i {
        return false;
    }
    let mut k: usize = 0;
    while k < pat.len()
        invariant
            i + pat.len() <= s.len(),
            k <= pat.len(),
            forall|t: int| 0 <= t < k ==> s@[i + t] == pat@[t],
        decreases pat.len() - k,
    {
        if s[i + k] != pat[k] {
            assert(s@.subrange(i as int, i + pat.len())[k as int] != pat@[k as int]);
            return false;
        }
        k = k + 1;
    }
    assert(s@.subrange(i as int, i + pat.len()) =~= pat@);
    true
}

/// The first line terminator at or after `from`.
fn find_crlf(s: &Vec<char>, from: usize) -> (r: Option<usize>)
    requires
        from <= s.len(),
    ensures
        match first_from(s@, from as int, crlf()) {
            Some(e) => r matches Some(x) && x == e,
            None => r is None,
        },
{
    let mut i: usize = from;
    while s.len() > 0 && i < s.len() - 1
        invariant
            from <= i <= s.len(),
            forall|t: int| from <= t < i ==> !crlf_at(s@, t),
        decreases s.len() - i,
    {
        if s[i] == '\r' && s[i + 1] == '\n' {
            proof {
                lemma_first_from_found(s@, from as int, crlf(), i as int);
            }
            return Some(i);
        }
        i = i + 1;
    }
    proof {
        lemma_first_from_none(s@, from as int, crlf());
    }
    None
}

/// The first index at which `name` occurs in `s`, followed by a digit where
/// `digit_after` holds.
fn find_field(s: &Vec<char>, name: &Vec<char>, digit_after: bool) -> (r: Option<usize>)
    ensures
        match first_from(s@, 0, field(name@, digit_after)) {
            Some(e) => r matches Some(x) && x == e,
            None => r is None,
        },
{
    let mut i: usize = 0;
    while i <= s.len()
        invariant
            i <= s.len() + 1,
            forall|t: int| 0 <= t < i ==> !field_at(s@, name@, digit_after, t),
        decreases s.len() + 1 - i,
    {
        let found = occurs(s, name, i) && (!digit_after || (i + name.len() < s.len()
            && CharClass::Digit.contains(s[i + name.len()])));
        if found {
            proof {
                lemma_first_from_found(s@, 0, field(name@, digit_after), i as int);
            }
            return Some(i);
        }
        if i == s.len() {
            proof {
                lemma_first_from_none(s@, 0, field(name@, digit_after));
            }
            return None;
        }
        i = i + 1;
    }
    proof {
        lemma_first_from_none(s@, 0, field(name@, digit_after));
    }
    None
}

/// The value of the digits `s[from..to]`, or `None` where it does not fit
/// in `usize`.
fn digits_to_usize(s: &Vec<char>, from: usize, to: usize) -> (r: Option<usize>)
    requires
        from <= to <= s.len(),
        forall|t: int| from <= t < to ==> is_digit(s@[t]),
    ensures
        match r {
            Some(n) => n == digits_value(s@.subrange(from as int, to as int)),
            None => digits_value(s@.subrange(from as int, to as int)) > usize::MAX,
        },
{
    let mut value: usize = 0;
    let mut i: usize = from;
    while i < to
        invariant
            from <= i <= to <= s.len(),
            forall|t: int| from <= t < to ==> is_digit(s@[t]),
            value == digits_value(s@.subrange(from as int, i as int)),
        decreases to - i,
    {
        let d: usize = (s[i] as u32 - 48) as usize;
        proof {
            let next = s@.subrange(from as int, i + 1);
            assert(next.drop_last() =~= s@.subrange(from as int, i as int));
            assert(next.last() == s@[i as int]);
        }
        match value.checked_mul(10) {
            Some(tens) => match tens.checked_add(d) {
                Some(v) => {
                    value = v;
                },
                None => {
                    proof {
                        lemma_digits_value_prefix(s@.subrange(from as int, to as int), i + 1 - from);
                        assert(s@.subrange(from as int, to as int).subrange(0, i + 1 - from) =~= s@.subrange(from as int, i + 1));
                    }
                    return None;
                },
            },
            None => {
                proof {
                    lemma_digits_value_prefix(s@.subrange(from as int, to as int), i + 1 - from);
                    assert(s@.subrange(from as int, to as int).subrange(0, i + 1 - from) =~= s@.subrange(from as int, i + 1));
                }
                return None;
            },
        }
        i = i + 1;
    }
    Some(value)
}

/// A longer run of digits has at least the value of its prefix.
proof fn lemma_digits_value_prefix(s: Seq<char>, k: int)
    requires
        0 <= k <= s.len(),
    ensures
        digits_value(s.subrange(0, k)) <= digits_value(s),
    decreases s.len() - k,
{
    if k < s.len() {
        lemma_digits_value_prefix(s.drop_last(), k);
        assert(s.drop_last().subrange(0, k) =~= s.subrange(0, k));
        let x = digits_value(s.drop_last());
        assert(x * 10 >= x) by (nonlinear_arith)
            requires
                x >= 0,
        ;
    } else {
        assert(s.subrange(0, k) =~= s);
    }
}

// ---------------------------------------------------------------------------
// The parser
// ---------------------------------------------------------------------------

/// The method, path and version of a request line.
fn parse_request_line(line: &Vec<char>) -> (r: Option<(String, String, String)>)
    ensures
        match request_line(line@) {
            Some((m, p, v)) => r matches Some((a, b, c)) && a@ == m && b@ == p && c@ == v,
            None => r is None,
        },
{
    let n = line.len();
    let m = span_of(line, 0, CharClass::Upper);
    let s1 = span_of(line, m, CharClass::Space);
    let p0 = m + s1;
    if m == 0 || s1 == 0 || p0 >= n || line[p0] != '/' {
        return None;
    }
    let pl = span_of(line, p0, CharClass::NonSpace);
    let s2 = span_of(line, p0 + pl, CharClass::Space);
    let v0 = p0 + pl + s2;
    if s2 == 0 || n - v0 != 8 {
        return None;
    }
    let ok = line[v0] == 'H' && line[v0 + 1] == 'T' && line[v0 + 2] == 'T' && line[v0 + 3] == 'P'
        && line[v0 + 4] == '/' && CharClass::Digit.contains(line[v0 + 5]) && line[v0 + 6] == '.'
        && CharClass::Digit.contains(line[v0 + 7]);
    proof {
        let t = line@.subrange(v0 as int, n as int);
        if ok {
            assert(t.subrange(0, 5) =~= seq!['H', 'T', 'T', 'P', '/']);
        } else if is_version_text(t) {
            assert(t.subrange(0, 5)[0] == t[0]);
            assert(t.subrange(0, 5)[1] == t[1]);
            assert(t.subrange(0, 5)[2] == t[2]);
            assert(t.subrange(0, 5)[3] == t[3]);
            assert(t.subrange(0, 5)[4] == t[4]);
        }
    }
    if !ok {
        return None;
    }
    Some((string_of(line, 0, m), string_of(line, p0, p0 + pl), string_of(line, v0 + 5, v0 + 8)))
}

/// `content-length: ` as a vector.
fn length_name_chars() -> (r: Vec<char>)
    ensures
        r@ == length_name(),
{
    let r = vec!['c', 'o', 'n', 't', 'e', 'n', 't', '-', 'l', 'e', 'n', 'g', 't', 'h', ':', ' '];
    assert(r@ =~= length_name());
    r
}

/// `Content-Type: ` as a vector.
fn content_type_name_chars() -> (r: Vec<char>)
    ensures
        r@ == content_type_name(),
{
    let r = vec!['C', 'o', 'n', 't', 'e', 'n', 't', '-', 'T', 'y', 'p', 'e', ':', ' '];
    assert(r@ =~= content_type_name());
    r
}

/// Every character of a run has the class of the run.
proof fn lemma_span_holds(s: Seq<char>, i: int, k: CharClass)
    requires
        0 <= i,
    ensures
        i + span(s, i, k) <= s.len() || span(s, i, k) == 0,
        forall|t: int| i <= t < i + span(s, i, k) ==> k.holds(#[trigger] s[t]),
    decreases s.len() - i,
{
    if 0 <= i < s.len() && k.holds(s[i]) {
        lemma_span_holds(s, i + 1, k);
    }
}

/// The content length that the header lines `rest` give.
fn parse_content_length(rest: &Vec<char>) -> (r: Result<Option<usize>, RequestError>)
    ensures
        match content_length_of(rest@) {
            Some(n) => if n > usize::MAX {
                r == Err::<Option<usize>, RequestError>(
                    RequestError::Malformed(HeaderPart::ContentLength),
                )
            } else {
                r == Ok::<Option<usize>, RequestError>(Some(n as usize))
            },
            None => r == Ok::<Option<usize>, RequestError>(None),
        },
{
    let name = length_name_chars();
    let n = rest.len();
    match find_field(rest, &name, true) {
        None => Ok(None),
        Some(i) => {
            proof {
                lemma_first_from_sound(rest@, 0, field(length_name(), true));
                assert(field_at(rest@, length_name(), true, i as int));
                assert(length_name().len() == 16);
                assert(i + 16 <= n);
            }
            let start = i + 16;
            let len = span_of(rest, start, CharClass::Digit);
            proof {
                lemma_span_holds(rest@, start as int, CharClass::Digit);
            }
            match digits_to_usize(rest, start, start + len) {
                Some(n) => Ok(Some(n)),
                None => Err(RequestError::Malformed(HeaderPart::ContentLength)),
            }
        },
    }
}

/// The content type that the header lines `rest` give.
fn parse_content_type(rest: &Vec<char>) -> (r: Option<String>)
    ensures
        match content_type_of(rest@) {
            Some(t) => r matches Some(x) && x@ == t,
            None => r is None,
        },
{
    let name = content_type_name_chars();
    let n = rest.len();
    match find_field(rest, &name, false) {
        None => None,
        Some(i) => {
            proof {
                lemma_first_from_sound(rest@, 0, field(content_type_name(), false));
                assert(field_at(rest@, content_type_name(), false, i as int));
                assert(content_type_name().len() == 14);
                assert(i + 14 <= n);
            }
            let start = i + 14;
            match find_crlf(rest, start) {
                Some(e) => {
                    proof {
                        lemma_first_from_sound(rest@, start as int, crlf());
                        assert(crlf_at(rest@, e as int));
                    }
                    Some(string_of(rest, start, e))
                },
                None => Some(string_of(rest, start, rest.len())),
            }
        },
    }
}

impl HTTPRequestHeader {
    /// Parses a header block: the request line, then `content-length` and
    /// `Content-Type` from the lines after it.
    pub fn parse(s: &str) -> (r: Result<HTTPRequestHeader, RequestError>)
        ensures
            match parse_header(s@) {
                Ok(f) => r matches Ok(h) && h@ == f,
                Err(e) => r matches Err(x) && x == e,
            },
    {
        let text = chars_of(s);
        let n = text.len();
        let (line, rest) = match find_crlf(&text, 0) {
            Some(e) => {
                proof {
                    lemma_first_from_sound(text@, 0, crlf());
                    assert(crlf_at(text@, e as int));
                }
                (sub_vec(&text, 0, e), sub_vec(&text, e + 2, n))
            },
            None => (sub_vec(&text, 0, n), Vec::new()),
        };
        assert(line@ == first_line(s@));
        assert(rest@ =~= after_first_line(s@));
        let (method, path, http_version) = match parse_request_line(&line) {
            Some(fields) => fields,
            None => {
                return Err(RequestError::Malformed(HeaderPart::FirstLine));
            },
        };
        let content_length = match parse_content_length(&rest) {
            Ok(l) => l,
            Err(e) => {
                return Err(e);
            },
        };
        let content_type = parse_content_type(&rest);
        let h = HTTPRequestHeader { method, path, http_version, content_length, content_type };
        Ok(h)
    }
}

impl core::str::FromStr for HTTPRequestHeader {
    type Err = RequestError;

    fn from_str(s: &str) -> (r: Result<Self, Self::Err>)
        ensures
            match parse_header(s@) {
                Ok(f) => r matches Ok(h) && h@ == f,
                Err(e) => r matches Err(x) && x == e,
            },
    {
        Self::parse(s)
    }
}

impl DeconstructedHTTPRequest {
    /// Frames `value` and parses its header block: the header and the index
    /// at which the body starts.
    pub fn from_bytes(value: &[u8]) -> (r: Result<DeconstructedHTTPRequest, RequestError>)
        ensures
            match parse_request(value@) {
                Ok((f, start)) => r matches Ok(d) && d.0@ == f && d.1 == start,
                Err(e) => r matches Err(x) && x == e,
            },
    {
        let frame = match scan_frame(value) {
            Some(f) => f,
            None => {
                return Err(RequestError::BoundaryNotFound);
            },
        };
        proof {
            lemma_first_from_sound(value@, 0, marker());
            assert(marker_at(value@, frame.header_end as int));
        }
        let head = slice_subrange(value, 0, frame.header_end);
        let text = match utf8_text(head) {
            Some(t) => t,
            None => {
                return Err(RequestError::Encoding);
            },
        };
        match HTTPRequestHeader::parse(text) {
            Ok(h) => Ok(DeconstructedHTTPRequest(h, frame.body_start)),
            Err(e) => Err(e),
        }
    }
}

impl<'a> TryFrom<&'a [u8]> for DeconstructedHTTPRequest {
    type Error = RequestError;

    fn try_from(value: &'a [u8]) -> (r: Result<Self, Self::Error>)
        ensures
            match parse_request(value@) {
                Ok((f, start)) => r matches Ok(d) && d.0@ == f && d.1 == start,
                Err(e) => r matches Err(x) && x == e,
            },
    {
        Self::from_bytes(value)
    }
}

impl<'a> vstd::std_specs::convert::TryFromSpecImpl<&'a [u8]> for DeconstructedHTTPRequest {
    open spec fn obeys_try_from_spec() -> bool {
        false
    }

    open spec fn try_from_spec(v: &'a [u8]) -> Result<Self, RequestError> {
        arbitrary()
    }
}

// ---------------------------------------------------------------------------
// Round trip of the request line
// ---------------------------------------------------------------------------

/// A version `D.D`.
pub open spec fn is_version(v: Seq<char>) -> bool {
    v.len() == 3 && is_digit(v[0]) && v[1] == '.' && is_digit(v[2])
}

/// A method: one or more upper-case letters.
pub open spec fn is_method(m: Seq<char>) -> bool {
    m.len() > 0 && forall|i: int| 0 <= i < m.len() ==> is_upper(#[trigger] m[i])
}

/// A path: `/` and characters other than white space.
pub open spec fn is_path(p: Seq<char>) -> bool {
    p.len() > 0 && p[0] == '/' && forall|i: int| 0 <= i < p.len() ==> !is_space(#[trigger] p[i])
}

/// The request line `METHOD SP PATH SP HTTP/VERSION`.
pub open spec fn render_request_line(m: Seq<char>, p: Seq<char>, v: Seq<char>) -> Seq<char> {
    m + seq![' '] + p + seq![' ', 'H', 'T', 'T', 'P', '/'] + v
}

/// A run of class `k` from `i` to `j`, not followed by another character of
/// that class, has length `j - i`.
proof fn lemma_span_exact(s: Seq<char>, i: int, j: int, k: CharClass)
    requires
        0 <= i <= j <= s.len(),
        forall|t: int| i <= t < j ==> k.holds(#[trigger] s[t]),
        j == s.len() || !k.holds(s[j]),
    ensures
        span(s, i, k) == j - i,
    decreases j - i,
{
    if i < j {
        lemma_span_exact(s, i + 1, j, k);
    }
}

/// Parsing a rendered request line gives back its method, path and version.
pub proof fn lemma_request_line_round_trip(m: Seq<char>, p: Seq<char>, v: Seq<char>)
    requires
        is_method(m),
        is_path(p),
        is_version(v),
    ensures
        request_line(render_request_line(m, p, v)) == Some((m, p, v)),
{
    let line = render_request_line(m, p, v);
    let ml = m.len() as int;
    let pl = p.len() as int;
    assert(line.len() == ml + 1 + pl + 6 + 3);
    assert forall|t: int| 0 <= t < ml implies CharClass::Upper.holds(#[trigger] line[t]) by {
        assert(line[t] == m[t]);
    }
    lemma_span_exact(line, 0, ml, CharClass::Upper);
    assert forall|t: int| ml <= t < ml + 1 implies CharClass::Space.holds(#[trigger] line[t]) by {
        assert(line[t] == ' ');
    }
    assert(line[ml + 1] == p[0]);
    lemma_span_exact(line, ml, ml + 1, CharClass::Space);
    let p0 = ml + 1;
    assert forall|t: int| p0 <= t < p0 + pl implies CharClass::NonSpace.holds(
        #[trigger] line[t],
    ) by {
        assert(line[t] == p[t - p0]);
    }
    assert(line[p0 + pl] == ' ');
    lemma_span_exact(line, p0, p0 + pl, CharClass::NonSpace);
    assert forall|t: int| p0 + pl <= t < p0 + pl + 1 implies CharClass::Space.holds(
        #[trigger] line[t],
    ) by {
        assert(line[t] == ' ');
    }
    assert(line[p0 + pl + 1] == 'H');
    lemma_span_exact(line, p0 + pl, p0 + pl + 1, CharClass::Space);
    let v0 = p0 + pl + 1;
    let t = line.subrange(v0, line.len() as int);
    assert(t =~= seq!['H', 'T', 'T', 'P', '/'] + v);
    assert(t.subrange(0, 5) =~= seq!['H', 'T', 'T', 'P', '/']);
    assert(line.subrange(0, ml) =~= m);
    assert(line.subrange(p0, p0 + pl) =~= p);
    assert(line.subrange(v0 + 5, v0 + 8) =~= v);
}

/// The header parser reads the method, path and version of a header block
/// back from its first line, whatever lines follow it.
pub proof fn lemma_header_round_trip(m: Seq<char>, p: Seq<char>, v: Seq<char>, rest: Seq<char>)
    requires
        is_method(m),
        is_path(p),
        is_version(v),
    ensures
        parse_header(render_request_line(m, p, v) + seq!['\r', '\n'] + rest) != Err::<
            HeaderFields,
            RequestError,
        >(RequestError::Malformed(HeaderPart::FirstLine)),
        parse_header(render_request_line(m, p, v) + seq!['\r', '\n'] + rest) matches Ok(f) ==> f.method
            == m && f.path == p && f.http_version == v,
{
    let line = render_request_line(m, p, v);
    let text = line + seq!['\r', '\n'] + rest;
    let n = line.len() as int;
    assert forall|t: int| 0 <= t < n implies line[t] != '\r' by {
        if t < m.len() {
            assert(line[t] == m[t]);
        } else if m.len() < t < m.len() + 1 + p.len() {
            assert(line[t] == p[t - m.len() - 1]);
        } else if t >= m.len() + 1 + p.len() + 6 {
            assert(line[t] == v[t - m.len() - 1 - p.len() - 6]);
        }
    }
    assert forall|t: int| 0 <= t < n implies !#[trigger] crlf_at(text, t) by {
        assert(text[t] == line[t]);
    }
    assert(crlf_at(text, n));
    lemma_first_from_found(text, 0, crlf(), n);
    assert(first_line(text) =~= line);
    lemma_request_line_round_trip(m, p, v);
}

} // verus!
