//! The response model and its encoder: status line, standard headers,
//! content type, extra headers, content length and body.

use vstd::prelude::*;
use vstd::utf8::encode_utf8;

use crate::text::{decimal, push_decimal, push_signed_decimal, signed_decimal};

verus! {

/// The closed set of responses that a handler can give.
#[derive(Debug, PartialEq, Eq)]
pub enum HTTPResponses {
    PlainText(String),
    Html(String),
    JavaScript(String),
    Css(String),
    Json(String),
    /// A permanent redirect to the location held.
    Redirect(String),
    Image { ext: String, content: Vec<u8> },
    HTTPError { status_code: i32, message: String, body: String },
    /// Any status and content type; the extra headers are written in the
    /// order given.
    Custom {
        code: i32,
        message: String,
        ctype: String,
        headers: Option<Vec<(String, String)>>,
        body: Vec<u8>,
    },
}

/// What a handler returns: a response on success, an error response on
/// failure. Both are encoded the same way.
pub type HTTPResult = Result<Box<HTTPResponses>, Box<HTTPResponses>>;

/// A successful handler result.
pub fn http_ok(value: HTTPResponses) -> (r: HTTPResult)
    ensures
        r matches Ok(b) && *b == value,
{
    Ok(Box::new(value))
}

/// A failed handler result.
pub fn http_err(err: HTTPResponses) -> (r: HTTPResult)
    ensures
        r matches Err(b) && *b == err,
{
    Err(Box::new(err))
}

// ---------------------------------------------------------------------------
// The wire format
// ---------------------------------------------------------------------------

/// One `Name: Value\r\n` line for each extra header, in order.
pub open spec fn header_lines(h: Seq<(String, String)>) -> Seq<char>
    decreases h.len(),
{
    if h.len() == 0 {
        Seq::empty()
    } else {
        header_lines(h.drop_last()) + h.last().0@ + ": "@ + h.last().1@ + "\r\n"@
    }
}

/// The extra headers of a response, in order.
pub open spec fn extra_headers(headers: Option<Vec<(String, String)>>) -> Seq<(String, String)> {
    match headers {
        Some(h) => h@,
        None => Seq::empty(),
    }
}

/// Status line and headers up to the content type line.
pub open spec fn status_and_type(code: int, message: Seq<char>, ctype: Seq<char>) -> Seq<char> {
    "HTTP/1.1 "@ + signed_decimal(code) + " "@ + message
        + "\r\nX-Content-Type-Options: nosniff\r\nContent-Type: "@ + ctype + "\r\n"@
}

/// The content length line and the blank line that ends the headers.
pub open spec fn length_line(length: nat) -> Seq<char> {
    "Content-Length: "@ + decimal(length) + "\r\n\r\n"@
}

/// A response with a status, a content type, extra headers and a body.
pub open spec fn crafted(
    code: int,
    message: Seq<char>,
    ctype: Seq<char>,
    headers: Seq<(String, String)>,
    body: Seq<u8>,
) -> Seq<u8> {
    encode_utf8(status_and_type(code, message, ctype) + header_lines(headers) + length_line(body.len()))
        + body
}

/// The bytes of a permanent redirect to `location`.
pub open spec fn redirect_wire(location: Seq<char>) -> Seq<u8> {
    encode_utf8(
        "HTTP/1.1 301 Moved Permanently\r\nX-Content-Type-Options: nosniff\r\nLocation: "@
            + location + "\r\n\r\n"@,
    )
}

/// The body that a response carries.
pub open spec fn body_of(r: HTTPResponses) -> Seq<u8> {
    match r {
        HTTPResponses::PlainText(s) => encode_utf8(s@),
        HTTPResponses::Html(s) => encode_utf8(s@),
        HTTPResponses::JavaScript(s) => encode_utf8(s@),
        HTTPResponses::Css(s) => encode_utf8(s@),
        HTTPResponses::Json(s) => encode_utf8(s@),
        HTTPResponses::Redirect(_) => Seq::empty(),
        HTTPResponses::Image { content, .. } => content@,
        HTTPResponses::HTTPError { body, .. } => encode_utf8(body@),
        HTTPResponses::Custom { body, .. } => body@,
    }
}

/// The status line and headers of a response other than a redirect, up to
/// the content length line.
pub open spec fn head_of(r: HTTPResponses) -> Seq<char> {
    match r {
        HTTPResponses::PlainText(_) => status_and_type(200, "OK"@, "text/plain"@),
        HTTPResponses::Html(_) => status_and_type(200, "OK"@, "text/html; charset=utf-8"@),
        HTTPResponses::JavaScript(_) => status_and_type(200, "OK"@, "text/javascript"@),
        HTTPResponses::Css(_) => status_and_type(200, "OK"@, "text/css"@),
        HTTPResponses::Json(_) => status_and_type(200, "OK"@, "application/json"@),
        HTTPResponses::Redirect(_) => Seq::empty(),
        HTTPResponses::Image { ext, .. } => status_and_type(200, "OK"@, "image/"@ + ext@),
        HTTPResponses::HTTPError { status_code, message, .. } => status_and_type(
            status_code as int,
            message@,
            "text/plain"@,
        ),
        HTTPResponses::Custom { code, message, ctype, headers, .. } => status_and_type(
            code as int,
            message@,
            ctype@,
        ) + header_lines(extra_headers(headers)),
    }
}

/// The bytes that encode a response.
pub open spec fn encode(r: HTTPResponses) -> Seq<u8> {
    match r {
        HTTPResponses::Redirect(s) => redirect_wire(s@),
        _ => encode_utf8(head_of(r) + length_line(body_of(r).len())) + body_of(r),
    }
}

/// The bytes that encode a handler result, success or failure alike.
pub open spec fn encode_result(r: HTTPResult) -> Seq<u8> {
    match r {
        Ok(b) => encode(*b),
        Err(b) => encode(*b),
    }
}

/// A value that turns into the bytes of a response.
pub trait Response: Sized {
    spec fn wire(&self) -> Seq<u8>;

    /// Consumes the value and returns the bytes to write to the connection.
    fn to_response(self) -> (r: Vec<u8>)
        ensures
            r@ == self.wire(),
    ;
}

// ---------------------------------------------------------------------------
// The encoder
// ---------------------------------------------------------------------------

impl HTTPResponses {
    /// The response given when no route matches: 404, `Not found`.
    pub fn not_found() -> (r: Box<Self>)
        ensures
            is_not_found(*r),
    {
        Box::new(
            HTTPResponses::HTTPError {
                status_code: 404,
                message: String::from_str("Not found"),
                body: String::from_str("The requested content could not be found."),
            },
        )
    }

    /// The response for a failure of the server: 500,
    /// `Internal Server Error`.
    pub fn internal_server_error() -> (r: Box<Self>)
        ensures
            *r matches HTTPResponses::HTTPError { status_code, message, body } && status_code == 500
                && message@ == "Internal Server Error"@ && body@
                == "The server has encountered an unexpected error."@,
    {
        Box::new(
            HTTPResponses::HTTPError {
                status_code: 500,
                message: String::from_str("Internal Server Error"),
                body: String::from_str("The server has encountered an unexpected error."),
            },
        )
    }

    /// Encodes a response with text content.
    fn craft_string_response(code: i32, message: &str, ctype: &str, content: String) -> (r: Vec<
        u8,
    >)
        ensures
            r@ == crafted(code as int, message@, ctype@, Seq::empty(), encode_utf8(content@)),
    {
        Self::craft_byte_response(code, message, ctype, None, content.as_str().as_bytes_vec())
    }

    /// Encodes a response: status line, standard headers, content type,
    /// extra headers in order, content length, blank line, then the body
    /// unchanged.
    fn craft_byte_response(
        code: i32,
        message: &str,
        ctype: &str,
        headers: Option<Vec<(String, String)>>,
        content: Vec<u8>,
    ) -> (r: Vec<u8>)
        ensures
            r@ == crafted(code as int, message@, ctype@, extra_headers(headers), content@),
    {
        let mut content = content;
        let mut head = String::from_str("HTTP/1.1 ");
        push_signed_decimal(&mut head, code);
        head.append(" ");
        head.append(message);
        head.append("\r\nX-Content-Type-Options: nosniff\r\nContent-Type: ");
        head.append(ctype);
        head.append("\r\n");
        assert(head@ =~= status_and_type(code as int, message@, ctype@));
        let ghost fixed = head@;
        let ghost extra = extra_headers(headers);
        if let Some(h) = headers {
            let mut i: usize = 0;
            while i < h.len()
                invariant
                    i <= h.len(),
                    extra == h@,
                    head@ == fixed + header_lines(h@.take(i as int)),
                decreases h.len() - i,
            {
                head.append(h[i].0.as_str());
                head.append(": ");
                head.append(h[i].1.as_str());
                head.append("\r\n");
                assert(h@.take(i + 1).drop_last() =~= h@.take(i as int));
                assert(head@ =~= fixed + header_lines(h@.take(i + 1)));
                i = i + 1;
            }
            assert(h@.take(i as int) =~= h@);
        }
        assert(head@ == fixed + header_lines(extra));
        head.append("Content-Length: ");
        push_decimal(&mut head, content.len() as u64);
        head.append("\r\n\r\n");
        assert(head@ =~= fixed + header_lines(extra) + length_line(content@.len()));
        let mut out = head.as_str().as_bytes_vec();
        out.append(&mut content);
        out
    }
}

/// The response is the 404 that answers a request no route matches.
pub open spec fn is_not_found(r: HTTPResponses) -> bool {
    r matches HTTPResponses::HTTPError { status_code, message, body } && status_code == 404
        && message@ == "Not found"@ && body@ == "The requested content could not be found."@
}

impl Response for HTTPResponses {
    open spec fn wire(&self) -> Seq<u8> {
        encode(*self)
    }

    fn to_response(self) -> (r: Vec<u8>) {
        match self {
            HTTPResponses::Redirect(s) => {
                let mut text = String::from_str(
                    "HTTP/1.1 301 Moved Permanently\r\nX-Content-Type-Options: nosniff\r\nLocation: ",
                );
                text.append(s.as_str());
                text.append("\r\n\r\n");
                text.as_str().as_bytes_vec()
            },
            HTTPResponses::PlainText(s) => Self::craft_string_response(200, "OK", "text/plain", s),
            HTTPResponses::Html(s) => Self::craft_string_response(
                200,
                "OK",
                "text/html; charset=utf-8",
                s,
            ),
            HTTPResponses::JavaScript(s) => Self::craft_string_response(
                200,
                "OK",
                "text/javascript",
                s,
            ),
            HTTPResponses::Css(s) => Self::craft_string_response(200, "OK", "text/css", s),
            HTTPResponses::Json(s) => Self::craft_string_response(200, "OK", "application/json", s),
            HTTPResponses::HTTPError { status_code, message, body } => Self::craft_string_response(
                status_code,
                message.as_str(),
                "text/plain",
                body,
            ),
            HTTPResponses::Image { ext, content } => {
                let mut ctype = String::from_str("image/");
                ctype.append(ext.as_str());
                Self::craft_byte_response(200, "OK", ctype.as_str(), None, content)
            },
            HTTPResponses::Custom { code, message, ctype, headers, body } => {
                Self::craft_byte_response(code, message.as_str(), ctype.as_str(), headers, body)
            },
        }
    }
}

impl Response for Box<HTTPResponses> {
    open spec fn wire(&self) -> Seq<u8> {
        encode(**self)
    }

    fn to_response(self) -> (r: Vec<u8>) {
        (*self).to_response()
    }
}

impl From<String> for HTTPResponses {
    fn from(value: String) -> (r: Self) {
        HTTPResponses::PlainText(value)
    }
}

impl core::str::FromStr for HTTPResponses {
    type Err = String;

    /// Plain text; never fails.
    fn from_str(s: &str) -> (r: Result<Self, Self::Err>)
        ensures
            r matches Ok(x) && x matches HTTPResponses::PlainText(t) && t@ == s@,
    {
        Ok(HTTPResponses::PlainText(s.to_owned()))
    }
}

impl<'a> From<&'a str> for HTTPResponses {
    fn from(value: &'a str) -> (r: Self)
        ensures
            r matches HTTPResponses::PlainText(t) && t@ == value@,
    {
        HTTPResponses::PlainText(String::from_str(value))
    }
}

impl<'a> vstd::std_specs::convert::FromSpecImpl<&'a str> for HTTPResponses {
    open spec fn obeys_from_spec() -> bool {
        false
    }

    open spec fn from_spec(v: &'a str) -> Self {
        arbitrary()
    }
}

impl vstd::std_specs::convert::FromSpecImpl<String> for HTTPResponses {
    open spec fn obeys_from_spec() -> bool {
        true
    }

    open spec fn from_spec(v: String) -> Self {
        HTTPResponses::PlainText(v)
    }
}

// ---------------------------------------------------------------------------
// Laws of the encoder
// ---------------------------------------------------------------------------

/// Encoding depends on the response alone: equal responses give the same
/// bytes.
pub proof fn lemma_encoding_deterministic(a: HTTPResponses, b: HTTPResponses)
    requires
        a == b,
    ensures
        encode(a) == encode(b),
        a.wire() == b.wire(),
{
}

/// Every response but a redirect ends with its body, and what comes before
/// the body is the head closed by a content length line that gives the
/// exact number of body bytes.
pub proof fn lemma_content_length_exact(r: HTTPResponses)
    requires
        !(r is Redirect),
    ensures
        ({
            let e = encode(r);
            let n = body_of(r).len();
            &&& n <= e.len()
            &&& e.subrange(e.len() - n, e.len() as int) == body_of(r)
            &&& e.subrange(0, e.len() - n) == encode_utf8(head_of(r) + length_line(n))
        }),
{
    let e = encode(r);
    let h = encode_utf8(head_of(r) + length_line(body_of(r).len()));
    assert(e == h + body_of(r));
    assert(e.subrange(e.len() - body_of(r).len(), e.len() as int) =~= body_of(r));
    assert(e.subrange(0, e.len() - body_of(r).len()) =~= h);
}

} // verus!
