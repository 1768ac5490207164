use reqly::http::HttpResponse;
use reqly::response::{split_header_lines, DecodeError};

fn lines(block: &str) -> Vec<String> {
    split_header_lines(block)
}

fn texts(items: &[&str]) -> Vec<String> {
    items.iter().map(|s| s.to_string()).collect()
}

#[test]
fn stub_response_200_ok() {
    let headers = b"HTTP/1.1 200 OK\r\nContent-Type: text/plain\r\nContent-Length: 2\r\n\r\n".to_vec();
    let response = HttpResponse::from_transfer(200, headers, b"ok".to_vec()).unwrap();
    assert_eq!(
        response,
        HttpResponse {
            status: 200,
            headers: texts(&["HTTP/1.1 200 OK", "Content-Type: text/plain", "Content-Length: 2"]),
            body: "ok".to_string(),
        }
    );
}

#[test]
fn response_keeps_status_and_body() {
    let response = HttpResponse::from_transfer(404, Vec::new(), Vec::new()).unwrap();
    assert_eq!(response.status, 404);
    assert!(response.headers.is_empty());
    assert_eq!(response.body, "");
    let response = HttpResponse::from_transfer(u32::MAX, b"a\r\n".to_vec(), "héllo ✓".as_bytes().to_vec()).unwrap();
    assert_eq!(response.status, u32::MAX);
    assert_eq!(response.headers, texts(&["a"]));
    assert_eq!(response.body, "héllo ✓");
}

#[test]
fn response_headers_hold_no_empty_line() {
    let blocks: [&[u8]; 5] = [
        b"HTTP/1.1 301 Moved\r\nLocation: /a\r\n\r\nHTTP/1.1 200 OK\r\nServer: x\r\n\r\n",
        b"\r\n\r\n\r\n",
        b"\r\nA: 1",
        b"",
        b"A: 1\r\n\r\n\r\nB: 2",
    ];
    for block in blocks {
        let response = HttpResponse::from_transfer(200, block.to_vec(), Vec::new()).unwrap();
        assert!(response.headers.iter().all(|line| !line.is_empty()));
    }
}

#[test]
fn redirect_chain_keeps_all_header_lines_in_order() {
    let block = b"HTTP/1.1 301 Moved\r\nLocation: /a\r\n\r\nHTTP/1.1 200 OK\r\nServer: x\r\n\r\n".to_vec();
    let response = HttpResponse::from_transfer(200, block, Vec::new()).unwrap();
    assert_eq!(
        response.headers,
        texts(&["HTTP/1.1 301 Moved", "Location: /a", "HTTP/1.1 200 OK", "Server: x"])
    );
}

#[test]
fn header_block_that_is_not_text_is_refused() {
    let outcome = HttpResponse::from_transfer(200, vec![b'A', 0xff, b'\r', b'\n'], b"ok".to_vec());
    assert!(matches!(outcome, Err(DecodeError::Headers(_))));
}

#[test]
fn body_that_is_not_text_is_refused() {
    let outcome = HttpResponse::from_transfer(200, b"A: 1\r\n".to_vec(), vec![0xc3, 0x28]);
    assert!(matches!(outcome, Err(DecodeError::Body(_))));
    let outcome = HttpResponse::from_transfer(200, Vec::new(), vec![0xe2, 0x82]);
    assert!(matches!(outcome, Err(DecodeError::Body(_))));
}

#[test]
fn defective_headers_are_named_before_a_defective_body() {
    let outcome = HttpResponse::from_transfer(200, vec![0x80], vec![0x80]);
    assert!(matches!(outcome, Err(DecodeError::Headers(_))));
}

#[test]
fn decode_error_describes_the_defect() {
    let error = HttpResponse::from_transfer(200, Vec::new(), vec![b'o', b'k', 0xff]).unwrap_err();
    assert_eq!(error.message(), "invalid utf-8 sequence of 1 bytes from index 2");
    let error = HttpResponse::from_transfer(200, vec![b'a', 0xe2, 0x82], Vec::new()).unwrap_err();
    assert_eq!(error.message(), "incomplete utf-8 byte sequence from index 1");
    assert_eq!(DecodeError::Headers("h".to_string()).message(), "h");
    assert_eq!(DecodeError::Body("b".to_string()).message(), "b");
}

#[test]
fn lines_of_an_empty_block() {
    assert_eq!(lines(""), Vec::<String>::new());
}

#[test]
fn block_without_a_break_is_one_line() {
    assert_eq!(lines("Host: a"), texts(&["Host: a"]));
}

#[test]
fn trailing_break_leaves_no_line() {
    assert_eq!(lines("Host: a\r\n"), texts(&["Host: a"]));
    assert_eq!(lines("\r\n"), Vec::<String>::new());
}

#[test]
fn breaks_in_a_row_leave_no_line() {
    assert_eq!(lines("a\r\n\r\n\r\nb"), texts(&["a", "b"]));
    assert_eq!(lines("\r\n\r\na\r\n\r\n"), texts(&["a"]));
}

#[test]
fn lone_carriage_return_or_line_feed_is_no_break() {
    assert_eq!(lines("a\rb"), texts(&["a\rb"]));
    assert_eq!(lines("a\nb"), texts(&["a\nb"]));
    assert_eq!(lines("a\n\rb"), texts(&["a\n\rb"]));
    assert_eq!(lines("\r"), texts(&["\r"]));
    assert_eq!(lines("\n"), texts(&["\n"]));
}

#[test]
fn carriage_return_before_a_break_stays_in_the_line() {
    assert_eq!(lines("a\r\r\nb"), texts(&["a\r", "b"]));
    assert_eq!(lines("\r\r\n"), texts(&["\r"]));
    assert_eq!(lines("\r\n\n"), texts(&["\n"]));
}

#[test]
fn lines_may_hold_any_text() {
    assert_eq!(lines("X-Nom: café\r\nX-Σ: ✓✓\r\n𝄞"), texts(&["X-Nom: café", "X-Σ: ✓✓", "𝄞"]));
    assert_eq!(lines("é\r\n"), texts(&["é"]));
    assert_eq!(lines("\r\né"), texts(&["é"]));
}

#[test]
fn spaces_and_tabs_are_kept() {
    assert_eq!(lines(" \r\n\t\r\n  a  "), texts(&[" ", "\t", "  a  "]));
}
