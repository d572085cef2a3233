use loki::lsp::{
    classify_notification_method, classify_request_method, finished_headers, parse_headers,
    server_info, HeaderError, NotificationAction, RequestAction, METHOD_NOT_FOUND_CODE,
};

#[test]
fn headers_end_after_blank_line() {
    let buf = b"Content-Length: 5\r\n\r\nhello";
    assert_eq!(finished_headers(buf), Some(21));
}

#[test]
fn headers_end_finds_first_blank_line() {
    let buf = b"\r\n\r\n\r\n\r\n";
    assert_eq!(finished_headers(buf), Some(4));
}

#[test]
fn incomplete_headers_have_no_end() {
    assert_eq!(finished_headers(b"Content-Length: 5\r\n"), None);
    assert_eq!(finished_headers(b""), None);
    assert_eq!(finished_headers(b"\r\n\r"), None);
}

#[test]
fn parse_single_header() {
    let headers = parse_headers("Content-Length: 5\r\n\r\n").unwrap();
    assert_eq!(
        headers,
        vec![("Content-Length".to_string(), "5".to_string())]
    );
}

#[test]
fn parse_several_headers() {
    let headers = parse_headers("A: 1\r\nB: two three\r\n\r\n").unwrap();
    assert_eq!(
        headers,
        vec![
            ("A".to_string(), "1".to_string()),
            ("B".to_string(), "two three".to_string()),
        ]
    );
}

#[test]
fn header_value_may_contain_the_separator() {
    let headers = parse_headers("A: b: c").unwrap();
    assert_eq!(headers, vec![("A".to_string(), "b: c".to_string())]);
}

#[test]
fn header_without_separator_fails() {
    assert_eq!(
        parse_headers("junk\r\n\r\n").unwrap_err(),
        HeaderError::MissingSeparator
    );
    assert_eq!(parse_headers("").unwrap_err(), HeaderError::MissingSeparator);
}

#[test]
fn request_dispatch() {
    assert_eq!(
        classify_request_method("initialize"),
        RequestAction::RespondInitialize
    );
    assert_eq!(
        classify_request_method("shutdown"),
        RequestAction::RespondShutdown
    );
    assert_eq!(
        classify_request_method("textDocument/didOpen"),
        RequestAction::RespondMethodNotFound
    );
    assert_eq!(
        classify_request_method(""),
        RequestAction::RespondMethodNotFound
    );
}

#[test]
fn notification_dispatch() {
    assert_eq!(classify_notification_method("exit"), NotificationAction::Exit);
    assert_eq!(
        classify_notification_method("initialized"),
        NotificationAction::LogUnknownMethod
    );
}

#[test]
fn method_not_found_code_is_the_jsonrpc_one() {
    assert_eq!(METHOD_NOT_FOUND_CODE, -32601);
}

#[test]
fn server_info_names_the_server() {
    let info = server_info();
    assert_eq!(info.name, "Loki Language Server");
    assert_eq!(info.version, None);
}
