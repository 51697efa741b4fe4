use uploadr::config::Body;
use uploadr::curlyfries::parse_header;
use uploadr::curlyfries::store;
use uploadr::curlyfries::CurlyFry;
use uploadr::curlyfries::Response;
use uploadr::file::File;

fn entries(items: &[(&str, &str)]) -> Vec<(String, String)> {
    items.iter().map(|(k, v)| (k.to_string(), v.to_string())).collect()
}

fn lines(items: &[&str]) -> Vec<String> {
    items.iter().map(|item| item.to_string()).collect()
}

fn response(status_code: u32) -> Response {
    Response { status_code, url: String::new(), headers: Vec::new(), body: String::new() }
}

#[test]
fn ok_is_the_class_of_two_hundred() {
    for code in [200, 201, 204, 250, 299] {
        assert!(response(code).ok(), "{code}");
    }
    for code in [0, 1, 2, 20, 100, 199, 300, 301, 404, 500, 2000, 20000, u32::MAX] {
        assert!(!response(code).ok(), "{code}");
    }
}

#[test]
fn a_new_upload_is_empty() {
    let curlyfry = CurlyFry::new();
    assert_eq!(curlyfry.url, "");
    assert_eq!(curlyfry.method, "");
    assert!(curlyfry.headers.is_empty());
    assert!(curlyfry.response.is_none());
    assert!(curlyfry.file.buffer.is_empty());
    assert_eq!(curlyfry.file.name, "This will be overridden.txt");
}

#[test]
fn setters_set_one_field_each() {
    let mut curlyfry = CurlyFry::new();
    curlyfry.set_url(String::from("https://example.org/upload"));
    curlyfry.set_method(String::from("PUT"));
    curlyfry.set_headers(entries(&[("A", "1")]));
    curlyfry.set_file(File::new(b"abc", String::from("x")));
    assert_eq!(curlyfry.url, "https://example.org/upload");
    assert_eq!(curlyfry.method, "PUT");
    assert_eq!(curlyfry.headers, entries(&[("A", "1")]));
    assert_eq!(curlyfry.file.name, "x.txt");
    assert!(curlyfry.response.is_none());
}

#[test]
fn store_replaces_or_appends() {
    let mut headers = entries(&[("A", "1"), ("B", "2")]);
    store(&mut headers, String::from("B"), String::from("3"));
    assert_eq!(headers, entries(&[("A", "1"), ("B", "3")]));
    store(&mut headers, String::from("C"), String::from("4"));
    assert_eq!(headers, entries(&[("A", "1"), ("B", "3"), ("C", "4")]));
    store(&mut headers, String::from("a"), String::from("5"));
    assert_eq!(headers, entries(&[("A", "1"), ("B", "3"), ("C", "4"), ("a", "5")]));
    store(&mut headers, String::from("A"), String::from("6"));
    assert_eq!(headers, entries(&[("A", "6"), ("B", "3"), ("C", "4"), ("a", "5")]));
    let mut empty = Vec::new();
    store(&mut empty, String::from("K"), String::from("v"));
    assert_eq!(empty, entries(&[("K", "v")]));
}

#[test]
fn prepare_for_a_form_leaves_the_headers() {
    let mut curlyfry = CurlyFry::new();
    curlyfry.set_headers(entries(&[("Authorization", "Client-ID abc"), ("X-Empty", "")]));
    curlyfry.set_file(File::new(b"abc", String::from("x")));
    let out = curlyfry.prepare(&Body::MultipartFormData { field: String::from("image") });
    assert_eq!(out, lines(&["Authorization: Client-ID abc", "X-Empty: "]));
    assert_eq!(curlyfry.headers, entries(&[("Authorization", "Client-ID abc"), ("X-Empty", "")]));
}

#[test]
fn prepare_for_a_raw_body_sets_the_content_type() {
    let mut curlyfry = CurlyFry::new();
    curlyfry.set_headers(entries(&[("Authorization", "Client-ID abc")]));
    curlyfry.set_file(File::new(b"abc", String::from("x")));
    let out = curlyfry.prepare(&Body::Raw);
    assert_eq!(out, lines(&["Authorization: Client-ID abc", "Content-Type: text/plain"]));
    assert_eq!(
        curlyfry.headers,
        entries(&[("Authorization", "Client-ID abc"), ("Content-Type", "text/plain")])
    );
}

#[test]
fn prepare_for_a_raw_body_replaces_a_content_type() {
    let mut curlyfry = CurlyFry::new();
    curlyfry.set_headers(entries(&[("Content-Type", "image/gif"), ("B", "2")]));
    curlyfry.set_file(File::new(b"abc", String::from("x")));
    let out = curlyfry.prepare(&Body::Raw);
    assert_eq!(out, lines(&["Content-Type: text/plain", "B: 2"]));
}

#[test]
fn header_lines_are_split_at_the_first_colon_and_space() {
    assert_eq!(
        parse_header("Content-Type: text/html"),
        Some((String::from("Content-Type"), String::from("text/html")))
    );
    assert_eq!(
        parse_header("Location: https://a.example/b: c\r\n"),
        Some((String::from("Location"), String::from("https://a.example/b: c\r\n")))
    );
    assert_eq!(parse_header(": "), Some((String::new(), String::new())));
    assert_eq!(parse_header("a:b: c"), Some((String::from("a:b"), String::from("c"))));
    assert_eq!(parse_header("HTTP/1.1 200 OK\r\n"), None);
    assert_eq!(parse_header("Name:value"), None);
    assert_eq!(parse_header("\r\n"), None);
    assert_eq!(parse_header(""), None);
    assert_eq!(parse_header(":"), None);
}

#[test]
fn receive_records_the_response() {
    let mut curlyfry = CurlyFry::new();
    curlyfry.set_url(String::from("https://example.org/upload"));
    curlyfry.receive(
        200,
        String::from("https://example.org/done"),
        &lines(&[
            "HTTP/1.1 200 OK\r\n",
            "Content-Type: text/html\r\n",
            "X-Id: 1\r\n",
            "X-Id: 2\r\n",
            "\r\n",
        ]),
        String::from("body"),
    );
    let response = curlyfry.response.as_ref().unwrap();
    assert_eq!(response.status_code, 200);
    assert_eq!(response.url, "https://example.org/done");
    assert_eq!(response.body, "body");
    assert_eq!(response.headers, entries(&[("Content-Type", "text/html\r\n"), ("X-Id", "2\r\n")]));
    assert_eq!(curlyfry.url, "https://example.org/upload");
    assert!(response.ok());
}
