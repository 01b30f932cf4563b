use trichter::http::{contains_header_end, http_response, push_decimal, render_page, ReadNext, ReadStop, RequestBuffer, RunRecord, REQUEST_CAPACITY};

#[test]
fn header_end_detection() {
    assert!(contains_header_end(&b"GET / HTTP/1.1\r\nHost: x\r\n\r\n".to_vec()));
    assert!(!contains_header_end(&b"GET / HTTP/1.1\r\n".to_vec()));
    assert!(!contains_header_end(&b"\r\n\r".to_vec()));
    assert!(contains_header_end(&b"\r\n\r\n".to_vec()));
    assert!(!contains_header_end(&Vec::new()));
}

#[test]
fn request_read_until_header_end() {
    let mut buf = RequestBuffer::new();
    assert_eq!(buf.space(), REQUEST_CAPACITY);
    assert_eq!(buf.on_read(Some(b"GET / HTTP/1.1\r\n")), ReadNext::ReadMore(512 - 16));
    assert_eq!(buf.on_read(Some(b"\r\n")), ReadNext::Stop(ReadStop::HeaderComplete));
    assert_eq!(buf.bytes(), &b"GET / HTTP/1.1\r\n\r\n".to_vec());
}

#[test]
fn request_terminator_split_across_reads() {
    let mut buf = RequestBuffer::new();
    assert_eq!(buf.on_read(Some(b"GET /\r\n\r")), ReadNext::ReadMore(504));
    assert_eq!(buf.on_read(Some(b"\n")), ReadNext::Stop(ReadStop::HeaderComplete));
}

#[test]
fn request_closed_and_failed() {
    let mut buf = RequestBuffer::new();
    assert_eq!(buf.on_read(Some(b"GET")), ReadNext::ReadMore(509));
    assert_eq!(buf.on_read(Some(b"")), ReadNext::Stop(ReadStop::Closed));
    assert_eq!(buf.on_read(None), ReadNext::Stop(ReadStop::Failed));
    assert_eq!(buf.bytes(), &b"GET".to_vec());
}

#[test]
fn request_buffer_fills() {
    let mut buf = RequestBuffer::new();
    let chunk = vec![b'a'; 512];
    assert_eq!(buf.on_read(Some(&chunk)), ReadNext::ReadMore(0));
    assert_eq!(buf.space(), 0);
}

#[test]
fn decimal_digits() {
    for n in [0u64, 7, 10, 99, 100, 512, 1234567890, u64::MAX] {
        let mut out = b"x".to_vec();
        push_decimal(&mut out, n);
        assert_eq!(out, format!("x{}", n).into_bytes());
    }
}

#[test]
fn page_lists_runs() {
    let runs = vec![
        RunRecord { rate: b"1.5".to_vec(), duration_ms: 2300 },
        RunRecord { rate: b"0".to_vec(), duration_ms: 0 },
    ];
    let page = render_page(&runs);
    assert_eq!(
        String::from_utf8(page).unwrap(),
        "<html><body>Run 0: Rate: 1.5 DurationMs: 2300 <br />Run 1: Rate: 0 DurationMs: 0 <br /></body></html>"
    );
    assert_eq!(render_page(&[]), b"<html><body></body></html>".to_vec());
}

#[test]
fn response_frames_body() {
    let body = b"<html><body></body></html>";
    let resp = http_response(body);
    let expected = format!(
        "HTTP/1.0 200 OK\r\nContent-Type: text/html\r\nContent-Length: {}\r\nConnection: close\r\n\r\n{}",
        body.len(),
        String::from_utf8(body.to_vec()).unwrap()
    );
    assert_eq!(String::from_utf8(resp.clone()).unwrap(), expected);
    let text = String::from_utf8(resp).unwrap();
    let len: usize = text.split("Content-Length: ").nth(1).unwrap().split("\r\n").next().unwrap().parse().unwrap();
    assert_eq!(len, 26);
    assert!(text.ends_with("<html><body></body></html>"));
    assert_eq!(http_response(b""), b"HTTP/1.0 200 OK\r\nContent-Type: text/html\r\nContent-Length: 0\r\nConnection: close\r\n\r\n".to_vec());
}
