use http_router::{http_err, http_ok, HTTPResponses, Response};

fn bytes(s: &str) -> Vec<u8> {
    s.as_bytes().to_vec()
}

#[test]
fn plain_text_encoding() {
    let r = HTTPResponses::PlainText("hi".to_owned()).to_response();
    assert_eq!(
        r,
        bytes("HTTP/1.1 200 OK\r\nX-Content-Type-Options: nosniff\r\nContent-Type: text/plain\r\nContent-Length: 2\r\n\r\nhi")
    );
}

#[test]
fn encoding_is_deterministic() {
    let make = || HTTPResponses::Custom {
        code: 201,
        message: "Created".to_owned(),
        ctype: "text/csv".to_owned(),
        headers: Some(vec![("A".to_owned(), "1".to_owned()), ("B".to_owned(), "2".to_owned())]),
        body: b"x,y\n1,2".to_vec(),
    };
    assert_eq!(make().to_response(), make().to_response());
}

#[test]
fn custom_headers_in_order_and_exact_length() {
    let r = HTTPResponses::Custom {
        code: 201,
        message: "Created".to_owned(),
        ctype: "text/csv".to_owned(),
        headers: Some(vec![("B".to_owned(), "2".to_owned()), ("A".to_owned(), "1".to_owned())]),
        body: b"x,y\n1,2".to_vec(),
    }
    .to_response();
    assert_eq!(
        r,
        bytes("HTTP/1.1 201 Created\r\nX-Content-Type-Options: nosniff\r\nContent-Type: text/csv\r\nB: 2\r\nA: 1\r\nContent-Length: 7\r\n\r\nx,y\n1,2")
    );
}

#[test]
fn redirect_encoding() {
    let r = HTTPResponses::Redirect("/home".to_owned()).to_response();
    assert_eq!(
        r,
        bytes("HTTP/1.1 301 Moved Permanently\r\nX-Content-Type-Options: nosniff\r\nLocation: /home\r\n\r\n")
    );
}

#[test]
fn content_types_of_text_variants() {
    let cases = [
        (HTTPResponses::Html("<p>".to_owned()), "text/html; charset=utf-8", "<p>"),
        (HTTPResponses::JavaScript("f()".to_owned()), "text/javascript", "f()"),
        (HTTPResponses::Css("a{}".to_owned()), "text/css", "a{}"),
        (HTTPResponses::Json("{}".to_owned()), "application/json", "{}"),
    ];
    for (resp, ctype, body) in cases {
        let expected = format!(
            "HTTP/1.1 200 OK\r\nX-Content-Type-Options: nosniff\r\nContent-Type: {ctype}\r\nContent-Length: {}\r\n\r\n{body}",
            body.len()
        );
        assert_eq!(resp.to_response(), bytes(&expected));
    }
}

#[test]
fn image_bytes_pass_through() {
    let content = vec![0u8, 255, 13, 10, 13, 10];
    let r = HTTPResponses::Image {
        ext: "png".to_owned(),
        content: content.clone(),
    }
    .to_response();
    let mut expected = bytes("HTTP/1.1 200 OK\r\nX-Content-Type-Options: nosniff\r\nContent-Type: image/png\r\nContent-Length: 6\r\n\r\n");
    expected.extend_from_slice(&content);
    assert_eq!(r, expected);
}

#[test]
fn content_length_counts_bytes_not_chars() {
    let r = HTTPResponses::PlainText("é€".to_owned()).to_response();
    let text = String::from_utf8(r).unwrap();
    assert!(text.contains("Content-Length: 5\r\n\r\né€"));
}

#[test]
fn error_responses() {
    let nf = HTTPResponses::not_found();
    assert_eq!(
        *nf,
        HTTPResponses::HTTPError {
            status_code: 404,
            message: "Not found".to_owned(),
            body: "The requested content could not be found.".to_owned(),
        }
    );
    assert_eq!(
        nf.to_response(),
        bytes("HTTP/1.1 404 Not found\r\nX-Content-Type-Options: nosniff\r\nContent-Type: text/plain\r\nContent-Length: 41\r\n\r\nThe requested content could not be found.")
    );
    let ise = HTTPResponses::internal_server_error();
    assert_eq!(
        *ise,
        HTTPResponses::HTTPError {
            status_code: 500,
            message: "Internal Server Error".to_owned(),
            body: "The server has encountered an unexpected error.".to_owned(),
        }
    );
}

#[test]
fn negative_status_code() {
    let r = HTTPResponses::HTTPError {
        status_code: -7,
        message: "Odd".to_owned(),
        body: String::new(),
    }
    .to_response();
    assert_eq!(
        r,
        bytes("HTTP/1.1 -7 Odd\r\nX-Content-Type-Options: nosniff\r\nContent-Type: text/plain\r\nContent-Length: 0\r\n\r\n")
    );
}

#[test]
fn ok_and_err_results() {
    let ok = http_ok(HTTPResponses::Css("a".to_owned()));
    assert_eq!(ok, Ok(Box::new(HTTPResponses::Css("a".to_owned()))));
    let err = http_err(HTTPResponses::Json("b".to_owned()));
    assert_eq!(err, Err(Box::new(HTTPResponses::Json("b".to_owned()))));
    let boxed = Box::new(HTTPResponses::PlainText("hi".to_owned()));
    assert_eq!(
        boxed.to_response(),
        HTTPResponses::PlainText("hi".to_owned()).to_response()
    );
}

#[test]
fn from_string_is_plain_text() {
    let r: HTTPResponses = String::from("Hello").into();
    assert_eq!(r, HTTPResponses::PlainText("Hello".to_owned()));
    let r: HTTPResponses = "Hello".parse().unwrap();
    assert_eq!(r, HTTPResponses::PlainText("Hello".to_owned()));
    let r: HTTPResponses = "Hello".into();
    assert_eq!(r, HTTPResponses::PlainText("Hello".to_owned()));
}
