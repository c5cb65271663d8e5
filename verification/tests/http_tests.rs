use staticserve::fileset::StaticFileSet;
use staticserve::request::parse_request;
use staticserve::response::{build_response, content_type_for, index_document, route_read_path,
    route_request, ContentType, FileRead, Route};

fn demo_files() -> StaticFileSet {
    let root = b"../client/dist".to_vec();
    let paths = vec![b"../client/dist/a.html".to_vec(), b"../client/dist/sub/b.css".to_vec()];
    StaticFileSet::new(root, paths).expect("non-empty set")
}

#[test]
fn parse_extracts_method_and_target() {
    let line = parse_request(b"GET /a.html HTTP/1.1\r\nHost: x\r\n\r\n").expect("well-formed");
    assert_eq!(line.method, b"GET".to_vec());
    assert_eq!(line.target, b"/a.html".to_vec());
}

#[test]
fn parse_target_runs_to_line_end_without_second_space() {
    let line = parse_request(b"GET /a.html\r\n").expect("well-formed");
    assert_eq!(line.method, b"GET".to_vec());
    assert_eq!(line.target, b"/a.html".to_vec());
}

#[test]
fn parse_rejects_missing_carriage_return() {
    assert!(parse_request(b"GET / HTTP/1.1\n").is_none());
}

#[test]
fn parse_rejects_single_token_line() {
    assert!(parse_request(b"GETONLY\r\n").is_none());
}

#[test]
fn parse_rejects_empty_request() {
    assert!(parse_request(b"").is_none());
}

#[test]
fn member_get_is_served_with_exact_content_length() {
    let files = demo_files();
    let read = FileRead::Content(b"hello".to_vec());
    let resp = build_response(b"GET /a.html HTTP/1.1\r\n", &files, &read);
    assert_eq!(
        resp,
        b"HTTP/1.1 200 OK\r\nContent-Type: text/html\r\nContent-Length: 5\r\n\r\nhello".to_vec()
    );
}

#[test]
fn nested_member_gets_css_content_type() {
    let files = demo_files();
    let read = FileRead::Content(b"p{}".to_vec());
    let resp = build_response(b"GET /sub/b.css HTTP/1.1\r\n", &files, &read);
    assert_eq!(
        resp,
        b"HTTP/1.1 200 OK\r\nContent-Type: text/css\r\nContent-Length: 3\r\n\r\np{}".to_vec()
    );
}

#[test]
fn missing_path_is_not_found() {
    let files = demo_files();
    let resp = build_response(b"GET /missing HTTP/1.1\r\n", &files, &FileRead::Failed);
    assert_eq!(
        resp,
        b"HTTP/1.1 404 Not Found\r\nContent-Type: text/html; charset=UTF-8\r\nContent-Length: 18\r\n\r\nResource Not Found"
            .to_vec()
    );
}

#[test]
fn non_get_method_is_not_found() {
    let files = demo_files();
    let resp = build_response(b"POST /a.html HTTP/1.1\r\n", &files, &FileRead::Failed);
    let text = String::from_utf8(resp).unwrap();
    assert!(text.starts_with("HTTP/1.1 404 Not Found\r\n"));
    assert!(text.ends_with("\r\n\r\nResource Not Found"));
}

#[test]
fn root_get_returns_index_document() {
    let files = demo_files();
    let route = route_request(b"GET / HTTP/1.1\r\n", &files);
    assert!(matches!(route, Route::ServeIndex));
    let doc = index_document();
    let mut expected = format!(
        "HTTP/1.1 200 OK\r\nContent-Type: text/html; charset=UTF-8\r\nContent-Length: {}\r\n\r\n",
        doc.len()
    )
    .into_bytes();
    expected.extend_from_slice(&doc);
    let resp = build_response(b"GET / HTTP/1.1\r\n", &files, &FileRead::Failed);
    assert_eq!(resp, expected);
}

#[test]
fn root_get_ignores_any_read_outcome() {
    let files = demo_files();
    let with_content = build_response(
        b"GET / HTTP/1.1\r\n",
        &files,
        &FileRead::Content(b"something else".to_vec()),
    );
    let with_failure = build_response(b"GET / HTTP/1.1\r\n", &files, &FileRead::Failed);
    assert_eq!(with_content, with_failure);
    let text = String::from_utf8(with_failure).unwrap();
    assert!(text.starts_with("HTTP/1.1 200 OK\r\n"));
    assert!(text.ends_with("</html>"));
}

#[test]
fn only_member_routes_name_a_path_to_read() {
    let files = demo_files();
    let member = route_request(b"GET /a.html HTTP/1.1\r\n", &files);
    assert_eq!(route_read_path(&member), Some(b"../client/dist/a.html".to_vec()));
    let index = route_request(b"GET / HTTP/1.1\r\n", &files);
    assert_eq!(route_read_path(&index), None);
    let missing = route_request(b"GET /nope HTTP/1.1\r\n", &files);
    assert_eq!(route_read_path(&missing), None);
}

#[test]
fn failed_disk_read_degrades_to_internal_error() {
    let files = demo_files();
    let resp = build_response(b"GET /a.html HTTP/1.1\r\n", &files, &FileRead::Failed);
    assert_eq!(
        resp,
        b"HTTP/1.1 500 Internal Server Error\r\nContent-Type: text/html; charset=UTF-8\r\nContent-Length: 43\r\n\r\nInternal Server Error | Could Not Read File"
            .to_vec()
    );
}

#[test]
fn no_carriage_return_is_bad_request() {
    let files = demo_files();
    let resp = build_response(b"GET / HTTP/1.1\n", &files, &FileRead::Failed);
    assert_eq!(
        resp,
        b"HTTP/1.1 400 Bad Request\r\nContent-Type: text/html\r\nContent-Length: 11\r\n\r\nBad Request"
            .to_vec()
    );
}

#[test]
fn empty_request_is_bad_request() {
    let files = demo_files();
    let resp = build_response(b"", &files, &FileRead::Failed);
    let text = String::from_utf8(resp).unwrap();
    assert!(text.starts_with("HTTP/1.1 400 Bad Request\r\n"));
}

#[test]
fn extension_table_maps_known_and_unknown_extensions() {
    assert!(matches!(content_type_for(b"/d/x.html"), ContentType::Html));
    assert!(matches!(content_type_for(b"/d/x.css"), ContentType::Css));
    assert!(matches!(content_type_for(b"/d/x.js"), ContentType::Js));
    assert!(matches!(content_type_for(b"/d/x.svg"), ContentType::Svg));
    assert!(matches!(content_type_for(b"/d/noext"), ContentType::Json));
    assert!(matches!(content_type_for(b"/d/x.png"), ContentType::OctetStream));
}

#[test]
fn hidden_file_has_no_extension() {
    assert!(matches!(content_type_for(b"/d/.hidden"), ContentType::Json));
    assert!(matches!(content_type_for(b"/d/.a.css"), ContentType::Css));
}

#[test]
fn large_body_gets_multi_digit_content_length() {
    let files = demo_files();
    let body = vec![b'x'; 1234];
    let read = FileRead::Content(body.clone());
    let resp = build_response(b"GET /a.html HTTP/1.1\r\n", &files, &read);
    let text = String::from_utf8(resp).unwrap();
    assert!(text.contains("\r\nContent-Length: 1234\r\n"));
    assert!(text.ends_with(&"x".repeat(1234)));
}

#[test]
fn routes_tell_the_caller_what_to_read() {
    let files = demo_files();
    match route_request(b"GET /a.html HTTP/1.1\r\n", &files) {
        Route::ServeFile { path, content_type } => {
            assert_eq!(path, b"../client/dist/a.html".to_vec());
            assert!(matches!(content_type, ContentType::Html));
        },
        _ => panic!("expected a file route"),
    }
    assert!(matches!(route_request(b"GET /nope HTTP/1.1\r\n", &files), Route::NotFound));
    assert!(matches!(route_request(b"bad", &files), Route::BadRequest));
}

#[test]
fn redundant_separators_and_dots_still_name_the_member() {
    let files = demo_files();
    let read = FileRead::Content(b"hello".to_vec());
    let expected =
        b"HTTP/1.1 200 OK\r\nContent-Type: text/html\r\nContent-Length: 5\r\n\r\nhello".to_vec();
    assert_eq!(build_response(b"GET //a.html HTTP/1.1\r\n", &files, &read), expected);
    assert_eq!(build_response(b"GET /./a.html HTTP/1.1\r\n", &files, &read), expected);
    assert_eq!(build_response(b"GET /a.html/ HTTP/1.1\r\n", &files, &read), expected);
}

#[test]
fn parent_directory_segments_do_not_match_members() {
    let files = demo_files();
    let resp = build_response(b"GET /sub/../a.html HTTP/1.1\r\n", &files, &FileRead::Failed);
    let text = String::from_utf8(resp).unwrap();
    assert!(text.starts_with("HTTP/1.1 404 Not Found\r\n"));
}

#[test]
fn two_connections_are_served_independently() {
    let files = demo_files();
    let req = b"GET /a.html HTTP/1.1\r\n";
    let read_one = FileRead::Content(b"same bytes".to_vec());
    let read_two = FileRead::Content(b"same bytes".to_vec());
    let resp_one = build_response(req, &files, &read_one);
    let resp_two = build_response(req, &files, &read_two);
    assert_eq!(resp_one, resp_two);
    let expected =
        b"HTTP/1.1 200 OK\r\nContent-Type: text/html\r\nContent-Length: 10\r\n\r\nsame bytes"
            .to_vec();
    assert_eq!(resp_one, expected);
}
