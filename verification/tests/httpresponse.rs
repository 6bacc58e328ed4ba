use http::headers::Headers;
use http::httpresponse::HttpResponse;

fn content_type_headers<'a>() -> Headers<'a> {
    let mut h = Headers::new();
    h.insert("Content-Type", "text/html");
    h
}

#[test]
fn test_response_struct_creation_200() {
    let response_actual = HttpResponse::new("200", None, Some("xxxx".into()));
    let response_expected =
        HttpResponse::new("200", Some(content_type_headers()), Some("xxxx".into()));
    assert_eq!(response_actual, response_expected);
    assert_eq!(response_actual.get_version(), "HTTP/1.1");
    assert_eq!(response_actual.get_status_code(), "200");
    assert_eq!(response_actual.get_status_text(), "OK");
    assert_eq!(response_actual.get_headers(), "Content-Type:text/html\r\n");
    assert_eq!(response_actual.get_body(), "xxxx");
}

#[test]
fn test_response_struct_creation_404() {
    let response_actual = HttpResponse::new("404", None, Some("xxxx".into()));
    let response_expected =
        HttpResponse::new("404", Some(content_type_headers()), Some("xxxx".into()));
    assert_eq!(response_actual, response_expected);
    assert_eq!(response_actual.get_version(), "HTTP/1.1");
    assert_eq!(response_actual.get_status_code(), "404");
    assert_eq!(response_actual.get_status_text(), "Not Found");
    assert_eq!(response_actual.get_headers(), "Content-Type:text/html\r\n");
    assert_eq!(response_actual.get_body(), "xxxx");
}

#[test]
fn test_http_response_creation() {
    let response_expected =
        HttpResponse::new("404", Some(content_type_headers()), Some("xxxx".into()));
    assert_eq!(response_expected.get_version(), "HTTP/1.1");
    assert_eq!(response_expected.get_status_text(), "Not Found");
    let http_string: String = response_expected.into();
    let actual_string =
        "HTTP/1.1 404 Not Found\r\nContent-Type:text/html\r\nContent-Length: 4\r\n\r\nxxxx";
    assert_eq!(http_string, actual_string);
}

#[test]
fn serialized_200_with_default_headers() {
    let response = HttpResponse::new("200", None, Some("xxxx".into()));
    let text: String = response.into();
    assert_eq!(
        text,
        "HTTP/1.1 200 OK\r\nContent-Type:text/html\r\nContent-Length: 4\r\n\r\nxxxx"
    );
}

#[test]
fn serialized_404_with_default_headers() {
    let response = HttpResponse::new("404", None, Some("xxxx".into()));
    let text: String = response.into();
    assert!(text.starts_with("HTTP/1.1 404 Not Found\r\n"));
    assert_eq!(
        text,
        "HTTP/1.1 404 Not Found\r\nContent-Type:text/html\r\nContent-Length: 4\r\n\r\nxxxx"
    );
}

#[test]
fn serialized_500_without_body() {
    let response = HttpResponse::new("500", None, None);
    assert_eq!(response.get_body(), "");
    let text: String = response.into();
    assert_eq!(
        text,
        "HTTP/1.1 500 Internal Server Error\r\nContent-Type:text/html\r\nContent-Length: 0\r\n\r\n"
    );
    assert!(text.ends_with("Content-Length: 0\r\n\r\n"));
}

#[test]
fn reason_phrase_of_each_known_code() {
    assert_eq!(HttpResponse::new("200", None, None).get_status_text(), "OK");
    assert_eq!(HttpResponse::new("400", None, None).get_status_text(), "Bad Request");
    assert_eq!(
        HttpResponse::new("500", None, None).get_status_text(),
        "Internal Server Error"
    );
}

#[test]
fn reason_phrase_of_any_other_code() {
    for code in ["404", "201", "", "2000", "20", "abc", " 200", "200 ", "٢٠٠"] {
        let response = HttpResponse::new(code, None, None);
        assert_eq!(response.get_status_code(), code);
        assert_eq!(response.get_status_text(), "Not Found");
    }
}

#[test]
fn status_code_is_kept_as_given() {
    let code = String::from("200");
    let response = HttpResponse::new(code.as_str(), None, None);
    assert_eq!(response.get_status_code(), "200");
    assert_eq!(response.get_status_text(), "OK");
    assert_eq!(response.get_version(), "HTTP/1.1");
}

#[test]
fn headers_absent_give_content_type() {
    let response = HttpResponse::new("200", None, None);
    assert_eq!(response.get_headers(), "Content-Type:text/html\r\n");
}

#[test]
fn headers_given_are_kept_unchanged() {
    let mut h = Headers::new();
    h.insert("X-One", "1");
    h.insert("Server", "unit");
    let response = HttpResponse::new("200", Some(h), None);
    assert_eq!(response.get_headers(), "X-One:1\r\nServer:unit\r\n");
    let text: String = response.into();
    assert_eq!(
        text,
        "HTTP/1.1 200 OK\r\nX-One:1\r\nServer:unit\r\nContent-Length: 0\r\n\r\n"
    );
}

#[test]
fn empty_headers_are_not_replaced() {
    let response = HttpResponse::new("200", Some(Headers::new()), Some("hi".into()));
    assert_eq!(response.get_headers(), "");
    let text: String = response.into();
    assert_eq!(text, "HTTP/1.1 200 OK\r\nContent-Length: 2\r\n\r\nhi");
}

#[test]
fn header_line_has_no_space_after_colon() {
    let mut h = Headers::new();
    h.insert("Content-Type", "application/json");
    let response = HttpResponse::new("200", Some(h), None);
    assert_eq!(response.get_headers(), "Content-Type:application/json\r\n");
}

#[test]
fn content_length_counts_bytes_not_characters() {
    let response = HttpResponse::new("200", None, Some("héllo €".into()));
    assert_eq!(response.get_body().chars().count(), 7);
    let text: String = response.into();
    assert_eq!(
        text,
        "HTTP/1.1 200 OK\r\nContent-Type:text/html\r\nContent-Length: 10\r\n\r\nhéllo €"
    );
}

#[test]
fn content_length_of_empty_body_is_zero() {
    let text: String = HttpResponse::new("200", None, Some(String::new())).into();
    assert_eq!(
        text,
        "HTTP/1.1 200 OK\r\nContent-Type:text/html\r\nContent-Length: 0\r\n\r\n"
    );
}

#[test]
fn content_length_of_long_body() {
    let body = "a".repeat(12345);
    let text: String = HttpResponse::new("200", Some(Headers::new()), Some(body.clone())).into();
    assert_eq!(
        text,
        format!("HTTP/1.1 200 OK\r\nContent-Length: 12345\r\n\r\n{}", body)
    );
}

#[test]
fn body_is_followed_by_nothing() {
    let text: String = HttpResponse::new("200", None, Some("line\r\n".into())).into();
    assert!(text.ends_with("Content-Length: 6\r\n\r\nline\r\n"));
}

#[test]
fn serializing_twice_gives_the_same_text() {
    let mut h = Headers::new();
    h.insert("A", "1");
    h.insert("B", "2");
    h.insert("C", "3");
    let response = HttpResponse::new("400", Some(h), Some("body".into()));
    let first: String = response.clone().into();
    let second: String = response.clone().into();
    assert_eq!(first, second);
    assert_eq!(first.as_bytes(), second.as_bytes());
    assert_eq!(
        first,
        "HTTP/1.1 400 Bad Request\r\nA:1\r\nB:2\r\nC:3\r\nContent-Length: 4\r\n\r\nbody"
    );
}

#[test]
fn clone_is_equal_to_what_it_was_made_from() {
    let response = HttpResponse::new("500", None, Some("oops".into()));
    assert_eq!(response.clone(), response);
}

#[test]
fn default_response_is_200_ok_without_headers_or_body() {
    let response = HttpResponse::default();
    assert_eq!(response.get_version(), "HTTP/1.1");
    assert_eq!(response.get_status_code(), "200");
    assert_eq!(response.get_status_text(), "OK");
    assert_eq!(response.get_headers(), "");
    assert_eq!(response.get_body(), "");
    let text: String = response.into();
    assert_eq!(text, "HTTP/1.1 200 OK\r\nContent-Length: 0\r\n\r\n");
}

#[test]
fn send_response_writes_the_message() {
    let response = HttpResponse::new("200", None, Some("xxxx".into()));
    let mut stream: Vec<u8> = Vec::new();
    assert!(response.send_response(&mut stream).is_ok());
    assert_eq!(
        stream,
        b"HTTP/1.1 200 OK\r\nContent-Type:text/html\r\nContent-Length: 4\r\n\r\nxxxx".to_vec()
    );
}

#[test]
fn send_response_appends_to_what_was_written() {
    let response = HttpResponse::new("404", Some(Headers::new()), None);
    let mut stream: Vec<u8> = b"before".to_vec();
    assert!(response.send_response(&mut stream).is_ok());
    assert!(response.send_response(&mut stream).is_ok());
    let once = "HTTP/1.1 404 Not Found\r\nContent-Length: 0\r\n\r\n";
    assert_eq!(stream, format!("before{}{}", once, once).into_bytes());
}

#[test]
fn send_response_leaves_the_response_usable() {
    let response = HttpResponse::new("200", None, Some("é".into()));
    let mut stream: Vec<u8> = Vec::new();
    assert!(response.send_response(&mut stream).is_ok());
    let text: String = response.into();
    assert_eq!(stream, text.into_bytes());
}
