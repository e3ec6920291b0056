use http_router::{
    BodyAssembler, BodyStatus, DeconstructedHTTPRequest, HTTPArgs, HTTPRequest, HTTPRequestHeader,
};

#[test]
fn body_complete_in_first_read() {
    let bytes: &[u8] = b"POST /up HTTP/1.1\r\ncontent-length: 5\r\n\r\nhello";
    let DeconstructedHTTPRequest(header, start) = DeconstructedHTTPRequest::from_bytes(bytes).unwrap();
    assert_eq!(header.content_length, Some(5));
    let assembler = BodyAssembler::new(&header, bytes, start);
    assert_eq!(assembler.status(), BodyStatus::Complete);
    assert_eq!(assembler.into_body(), b"hello".to_vec());
}

#[test]
fn body_without_length_is_first_read_rest() {
    let bytes: &[u8] = b"GET / HTTP/1.1\r\nHost: x\r\n\r\nabc";
    let DeconstructedHTTPRequest(header, start) = DeconstructedHTTPRequest::from_bytes(bytes).unwrap();
    let assembler = BodyAssembler::new(&header, bytes, start);
    assert_eq!(assembler.status(), BodyStatus::Complete);
    assert_eq!(assembler.into_body(), b"abc".to_vec());
}

#[test]
fn short_reads_until_complete_and_extra_kept() {
    let bytes: &[u8] = b"POST /up HTTP/1.1\r\ncontent-length: 6\r\n\r\nab";
    let DeconstructedHTTPRequest(header, start) = DeconstructedHTTPRequest::from_bytes(bytes).unwrap();
    let mut assembler = BodyAssembler::new(&header, bytes, start);
    assert_eq!(assembler.status(), BodyStatus::NeedMore);
    assembler.on_read(b"cd");
    assert_eq!(assembler.status(), BodyStatus::NeedMore);
    assembler.on_read(b"efgh");
    assert_eq!(assembler.status(), BodyStatus::Complete);
    assert_eq!(assembler.into_body(), b"abcdefgh".to_vec());
}

#[test]
fn retries_run_out() {
    let bytes: &[u8] = b"POST /up HTTP/1.1\r\ncontent-length: 3\r\n\r\n";
    let DeconstructedHTTPRequest(header, start) = DeconstructedHTTPRequest::from_bytes(bytes).unwrap();
    let mut assembler = BodyAssembler::new(&header, bytes, start);
    for _ in 0..4 {
        assembler.on_failure();
        assert_eq!(assembler.status(), BodyStatus::NeedMore);
    }
    assembler.on_read(b"");
    assert_eq!(assembler.status(), BodyStatus::Abandoned);
    assembler.on_read(b"xyz");
    assert_eq!(assembler.status(), BodyStatus::Complete);
}

#[test]
fn bind_address_defaults() {
    let args = HTTPArgs {
        ip_addr: None,
        port: None,
    };
    assert_eq!(args.bind_address(), "127.0.0.1:8080");
    let args = HTTPArgs {
        ip_addr: Some("0.0.0.0".to_owned()),
        port: Some(65535),
    };
    assert_eq!(args.bind_address(), "0.0.0.0:65535");
    let args = HTTPArgs {
        ip_addr: None,
        port: Some(0),
    };
    assert_eq!(args.bind_address(), "127.0.0.1:0");
}

#[test]
fn post_request_from_first_read() {
    let bytes: &[u8] = b"POST /up HTTP/1.1\r\ncontent-length: 5\r\n\r\nhello";
    assert_eq!(bytes.len(), 45);
    let DeconstructedHTTPRequest(header, start) = DeconstructedHTTPRequest::from_bytes(bytes).unwrap();
    assert_eq!(start, 40);
    let assembler = BodyAssembler::new(&header, bytes, start);
    assert_eq!(assembler.status(), BodyStatus::Complete);
    let request = HTTPRequest(header, assembler.into_body());
    assert_eq!(
        request,
        HTTPRequest(
            HTTPRequestHeader {
                method: "POST".to_owned(),
                path: "/up".to_owned(),
                http_version: "1.1".to_owned(),
                content_length: Some(5),
                content_type: None,
            },
            b"hello".to_vec(),
        )
    );
}
