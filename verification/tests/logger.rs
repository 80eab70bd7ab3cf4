use std::sync::{Arc, Mutex};

use bytes::Bytes;
use request_logging_proxy::logger::{LogError, VSCodeRestLogger};
use request_logging_proxy::record::{HeaderField, LogEntry, RequestRecord, ResponseRecord};
use request_logging_proxy::writer::LockableWriter;

fn headers_of(map: &http::HeaderMap) -> Vec<HeaderField> {
    map.iter()
        .map(|(name, value)| HeaderField {
            name: name.as_str().to_string(),
            value: value.as_bytes().to_vec(),
        })
        .collect()
}

fn request_record(request: &hyper::Request<Bytes>) -> RequestRecord {
    RequestRecord {
        method: request.method().as_str().to_string(),
        uri: request.uri().to_string(),
        headers: headers_of(request.headers()),
        body: request.body().to_vec(),
    }
}

fn response_record(response: &hyper::Response<Bytes>) -> ResponseRecord {
    ResponseRecord {
        status: response.status().as_u16(),
        headers: headers_of(response.headers()),
        body: response.body().to_vec(),
    }
}

fn header(name: &str, value: &[u8]) -> HeaderField {
    HeaderField { name: name.to_string(), value: value.to_vec() }
}

fn plain_request(body: &[u8]) -> RequestRecord {
    RequestRecord {
        method: "POST".to_string(),
        uri: "http://example.com/items".to_string(),
        headers: vec![],
        body: body.to_vec(),
    }
}

fn plain_response(status: u16, body: &[u8]) -> ResponseRecord {
    ResponseRecord { status, headers: vec![], body: body.to_vec() }
}

const EXPECTED_LOG: &str = "\n###\n\nGET http://example.com/test\ncontent-type: application/json\n\n{\n  \"key\": \"value\"\n}\n\n### Response ###\n#\n# Status Code: 200 OK\n# Response Headers:\n#   content-type: application/json\n#\n# Body:\n# {\n#   \"response_key\": \"response_value\"\n# }\n#\n";

#[test]
fn it_logs_requests_and_responses() {
    let buf_writer = Arc::new(Mutex::new(Vec::new()));
    let mut logger = VSCodeRestLogger::from_buf_writer(buf_writer.clone());

    let request = hyper::Request::builder()
        .method("GET")
        .uri("http://example.com/test")
        .header("Content-Type", "application/json")
        .body(Bytes::from_static(b"{\"key\":\"value\"}"))
        .unwrap();

    let response = hyper::Response::builder()
        .status(200)
        .header("Content-Type", "application/json")
        .body(Bytes::from_static(b"{\"response_key\":\"response_value\"}"))
        .unwrap();

    let entry = LogEntry { request: request_record(&request), response: response_record(&response) };
    logger.log_request_response(entry).unwrap();

    let logged_output = buf_writer.lock().unwrap().clone();
    let logged_string = String::from_utf8(logged_output).unwrap();

    assert_eq!(logged_string, EXPECTED_LOG);
}

#[test]
fn entries_are_appended_in_order() {
    let buf_writer = Arc::new(Mutex::new(Vec::new()));
    let mut logger = VSCodeRestLogger::from_buf_writer(buf_writer.clone());
    let first = LogEntry { request: plain_request(b"one"), response: plain_response(201, b"") };
    let second = LogEntry { request: plain_request(b"two"), response: plain_response(204, b"") };
    logger.log_request_response(first).unwrap();
    logger.log_request_response(second).unwrap();
    let logged = String::from_utf8(buf_writer.lock().unwrap().clone()).unwrap();
    let one = "\n###\n\nPOST http://example.com/items\n\none\n\n### Response ###\n#\n# Status Code: 201 Created\n# Response Headers:\n#\n";
    let two = "\n###\n\nPOST http://example.com/items\n\ntwo\n\n### Response ###\n#\n# Status Code: 204 No Content\n# Response Headers:\n#\n";
    assert_eq!(logged, format!("{one}{two}"));
}

#[test]
fn request_with_json_body_is_pretty_printed() {
    let request = RequestRecord {
        method: "PUT".to_string(),
        uri: "/a".to_string(),
        headers: vec![header("accept", b"*/*"), header("x-n", b"1")],
        body: vec![],
    };
    let text = VSCodeRestLogger::log_request(&request, "[1,2]");
    assert_eq!(text, "\n###\n\nPUT /a\naccept: */*\nx-n: 1\n\n[\n  1,\n  2\n]\n");
}

#[test]
fn request_with_text_body_is_logged_verbatim() {
    let request = plain_request(b"");
    let text = VSCodeRestLogger::log_request(&request, "not json\nat all");
    assert_eq!(text, "\n###\n\nPOST http://example.com/items\n\nnot json\nat all\n");
}

#[test]
fn request_without_body_has_no_body_section() {
    let request = plain_request(b"");
    let text = VSCodeRestLogger::log_request(&request, "");
    assert_eq!(text, "\n###\n\nPOST http://example.com/items\n");
}

#[test]
fn header_value_with_non_ascii_byte_is_marked() {
    let request = RequestRecord {
        method: "GET".to_string(),
        uri: "/".to_string(),
        headers: vec![header("x-a", b"caf\xc3\xa9"), header("x-b", b"a\tb"), header("x-c", b"a\x01")],
        body: vec![],
    };
    let text = VSCodeRestLogger::log_request(&request, "");
    assert_eq!(text, "\n###\n\nGET /\nx-a: <invalid UTF-8>\nx-b: a\tb\nx-c: <invalid UTF-8>\n");
}

#[test]
fn format_request_uses_the_given_pretty_body() {
    let request = plain_request(b"");
    let text = VSCodeRestLogger::format_request(&request, "{}", Some("PRETTY".to_string()));
    assert_eq!(text, "\n###\n\nPOST http://example.com/items\n\nPRETTY\n");
    let text = VSCodeRestLogger::format_request(&request, "{}", None);
    assert_eq!(text, "\n###\n\nPOST http://example.com/items\n\n{}\n");
}

#[test]
fn response_body_lines_are_commented() {
    let response = ResponseRecord {
        status: 404,
        headers: vec![header("server", b"x")],
        body: vec![],
    };
    let text = VSCodeRestLogger::log_response(&response, "line one\nline two\n");
    assert_eq!(
        text,
        "\n### Response ###\n#\n# Status Code: 404 Not Found\n# Response Headers:\n#   server: x\n#\n# Body:\n# line one\n# line two\n# \n#\n"
    );
}

#[test]
fn response_with_unknown_status_has_marker() {
    let response = plain_response(599, b"");
    let text = VSCodeRestLogger::log_response(&response, "");
    assert_eq!(text, "\n### Response ###\n#\n# Status Code: 599 <unknown status code>\n# Response Headers:\n#\n");
}

#[test]
fn format_response_uses_the_given_reason_and_pretty_body() {
    let response = plain_response(7, b"");
    let text = VSCodeRestLogger::format_response(&response, Some("Seven".to_string()), "x", Some("a\nb".to_string()));
    assert_eq!(text, "\n### Response ###\n#\n# Status Code: 7 Seven\n# Response Headers:\n#\n# Body:\n# a\n# b\n#\n");
    let text = VSCodeRestLogger::format_response(&response, None, "", None);
    assert_eq!(text, "\n### Response ###\n#\n# Status Code: 7 <unknown status code>\n# Response Headers:\n#\n");
}

#[test]
fn every_response_line_after_the_first_is_a_comment() {
    let response = ResponseRecord {
        status: 500,
        headers: vec![header("a", b"1"), header("b", b"\xff")],
        body: vec![],
    };
    let text = VSCodeRestLogger::log_response(&response, "{\"k\":[1,{\"x\":null}]}");
    assert!(text.starts_with('\n'));
    assert!(text.ends_with('\n'));
    for line in text[1..].lines() {
        assert!(line.starts_with('#'), "line {line:?} is not a comment");
    }
}

#[test]
fn render_entry_is_request_then_response() {
    let entry = LogEntry { request: plain_request(b"hi"), response: plain_response(200, b"ok") };
    let text = VSCodeRestLogger::render_entry(&entry).unwrap();
    let request = VSCodeRestLogger::log_request(&entry.request, "hi");
    let response = VSCodeRestLogger::log_response(&entry.response, "ok");
    assert_eq!(text, format!("{request}{response}"));
    assert!(text.starts_with("\n###\n\nPOST "));
}

#[test]
fn render_entry_refuses_invalid_request_body() {
    let entry = LogEntry { request: plain_request(b"\xff\xfe"), response: plain_response(200, b"\xff") };
    assert!(matches!(VSCodeRestLogger::render_entry(&entry), Err(LogError::RequestBodyNotUtf8(_))));
}

#[test]
fn render_entry_refuses_invalid_response_body() {
    let entry = LogEntry { request: plain_request(b"fine"), response: plain_response(200, b"\xc3") };
    assert!(matches!(VSCodeRestLogger::render_entry(&entry), Err(LogError::ResponseBodyNotUtf8(_))));
}

#[test]
fn failed_entry_writes_nothing() {
    let buf_writer = Arc::new(Mutex::new(Vec::new()));
    let mut logger = VSCodeRestLogger::from_buf_writer(buf_writer.clone());
    let entry = LogEntry { request: plain_request(b"ok"), response: plain_response(200, b"\x80") };
    assert!(matches!(logger.log_request_response(entry), Err(LogError::ResponseBodyNotUtf8(_))));
    assert!(buf_writer.lock().unwrap().is_empty());
}

#[test]
fn utf8_body_is_decoded() {
    let entry = LogEntry { request: plain_request("é".as_bytes()), response: plain_response(200, b"") };
    let text = VSCodeRestLogger::render_entry(&entry).unwrap();
    assert!(text.contains("\n\né\n"));
}

#[test]
fn comment_continuation_prefixes_each_break() {
    let mut out = String::from(">");
    request_logging_proxy::text::push_comment_continuation(&mut out, "a\n\nb\n");
    assert_eq!(out, ">a\n# \n# b\n# ");
}

#[test]
fn write_entry_appends_the_rendered_entry_to_the_buffer() {
    let buffer = Arc::new(Mutex::new(b"before".to_vec()));
    let mut writer = LockableWriter::BufWriter(buffer.clone());
    let entry = LogEntry { request: plain_request(b"{\"a\":1}"), response: plain_response(200, b"ok") };
    let expected = VSCodeRestLogger::render_entry(&entry).unwrap();
    {
        let mut guard = writer.lock().unwrap();
        VSCodeRestLogger::write_entry(&mut guard, &entry).unwrap();
    }
    let held = buffer.lock().unwrap().clone();
    assert_eq!(held, [b"before".as_slice(), expected.as_bytes()].concat());
}

#[test]
fn write_entry_writes_nothing_for_an_invalid_body() {
    let buffer = Arc::new(Mutex::new(b"kept".to_vec()));
    let mut writer = LockableWriter::BufWriter(buffer.clone());
    let entry = LogEntry { request: plain_request(b"fine"), response: plain_response(200, b"\xff") };
    {
        let mut guard = writer.lock().unwrap();
        let err = VSCodeRestLogger::write_entry(&mut guard, &entry).err().unwrap();
        match err {
            LogError::ResponseBodyNotUtf8(e) => assert_eq!(e.valid_up_to(), 0),
            other => panic!("unexpected {other:?}"),
        }
    }
    assert_eq!(buffer.lock().unwrap().as_slice(), b"kept");
}

#[test]
fn io_outcomes_map_to_log_outcomes() {
    assert!(LogError::from_io(Ok(())).is_ok());
    let err = LogError::from_io(Err(std::io::Error::other("disk full"))).err().unwrap();
    match err {
        LogError::Io(e) => assert_eq!(e.to_string(), "disk full"),
        other => panic!("unexpected {other:?}"),
    }
}

#[test]
fn body_to_string_reads_utf8_only() {
    use_body(b"caf\xc3\xa9", Some("café"));
    use_body(b"\xc3", None);
}

fn use_body(bytes: &[u8], expected: Option<&str>) {
    let body = bytes.to_vec();
    let got = request_logging_proxy::logger::body_to_string(&body).ok();
    assert_eq!(got, expected);
}
