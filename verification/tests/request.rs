//! What the harness makes of an address, a path, headers and a body.

use axum_test_helper::{
    HeaderError, Method, Payload, Request, RequestBuilder, ServerAddr, TestClient,
};

fn client() -> TestClient {
    TestClient::new(ServerAddr::new(127, 0, 0, 1, 8080), false)
}

fn header(name: &str, value: &[u8]) -> (String, Vec<u8>) {
    (name.to_owned(), value.to_vec())
}

fn body_of(request: &Request) -> Option<&[u8]> {
    match &request.payload {
        Payload::Bytes(bytes) => Some(bytes.as_slice()),
        _ => None,
    }
}

#[test]
fn address_text_is_octets_and_port_in_decimal() {
    assert_eq!(ServerAddr::new(127, 0, 0, 1, 8080).to_text(), "127.0.0.1:8080");
    assert_eq!(ServerAddr::new(0, 0, 0, 0, 0).to_text(), "0.0.0.0:0");
    assert_eq!(
        ServerAddr::new(255, 255, 255, 255, 65535).to_text(),
        "255.255.255.255:65535"
    );
    assert_eq!(ServerAddr::new(10, 9, 100, 99, 10).to_text(), "10.9.100.99:10");
    assert_eq!(ServerAddr::new(192, 168, 1, 20, 1000).to_text(), "192.168.1.20:1000");
}

#[test]
fn address_text_is_appended() {
    let mut out = String::from("at ");
    ServerAddr::new(127, 0, 0, 1, 9).write_to(&mut out);
    assert_eq!(out, "at 127.0.0.1:9");
}

#[test]
fn server_asks_for_loopback_and_any_port() {
    let addr = ServerAddr::ephemeral();
    assert_eq!(addr, ServerAddr::new(127, 0, 0, 1, 0));
    assert_eq!(addr.to_text(), "127.0.0.1:0");
}

#[test]
fn base_url_names_the_server() {
    assert_eq!(client().base_url(), "http://127.0.0.1:8080");
    assert_eq!(client().addr(), ServerAddr::new(127, 0, 0, 1, 8080));
}

#[test]
fn base_url_stays_the_same() {
    let client = client();
    let first = client.base_url();
    let _ = client.get("/a").into_request();
    let _ = client.post("/b").into_request();
    assert_eq!(client.base_url(), first);
}

#[test]
fn client_never_follows_redirects() {
    assert!(!client().options().follow_redirects);
    let with_cookies = TestClient::new(ServerAddr::ephemeral(), true);
    assert!(!with_cookies.options().follow_redirects);
}

#[test]
fn client_keeps_cookies_only_when_asked() {
    let addr = ServerAddr::new(127, 0, 0, 1, 8080);
    assert!(TestClient::new(addr, true).options().cookie_store);
    assert!(!TestClient::new(addr, false).options().cookie_store);
}

#[test]
fn each_verb_starts_a_bare_request_for_the_path() {
    let client = client();
    let cases = vec![
        (client.get("/x"), Method::Get),
        (client.head("/x"), Method::Head),
        (client.post("/x"), Method::Post),
        (client.put("/x"), Method::Put),
        (client.patch("/x"), Method::Patch),
        (client.delete("/x"), Method::Delete),
    ];
    for (builder, method) in cases {
        let request = builder.into_request();
        assert_eq!(request.method, method);
        assert_eq!(request.url, "http://127.0.0.1:8080/x");
        assert!(request.headers.is_empty());
        assert!(matches!(request.payload, Payload::Empty));
    }
}

#[test]
fn request_takes_verb_and_path_as_given() {
    let request = client().request(Method::Patch, "/a/b?c=d").into_request();
    assert_eq!(request.method, Method::Patch);
    assert_eq!(request.url, "http://127.0.0.1:8080/a/b?c=d");
    let request = client().get("").into_request();
    assert_eq!(request.url, "http://127.0.0.1:8080");
}

#[test]
fn builder_starts_with_what_it_is_given() {
    let request =
        RequestBuilder::new(Method::Put, "http://example.test/".to_owned()).into_request();
    assert_eq!(request.method, Method::Put);
    assert_eq!(request.url, "http://example.test/");
    assert!(request.headers.is_empty());
    assert!(matches!(request.payload, Payload::Empty));
}

#[test]
fn header_name_is_kept_in_lower_case() {
    let request = client()
        .get("/")
        .header("X-Custom-ID", b"Value With Case")
        .into_request();
    assert_eq!(request.headers, vec![header("x-custom-id", b"Value With Case")]);
}

#[test]
fn headers_stay_in_the_order_given() {
    let request = client()
        .get("/")
        .header("accept", b"text/html")
        .header("Accept", b"application/json")
        .header("x-b", b"")
        .into_request();
    assert_eq!(
        request.headers,
        vec![
            header("accept", b"text/html"),
            header("accept", b"application/json"),
            header("x-b", b""),
        ]
    );
}

#[test]
fn header_name_takes_every_name_character() {
    let name = "!#$%&'*+-.^_`|~09azAZ";
    let request = client().get("/").header(name, b"v").into_request();
    assert_eq!(request.headers, vec![header("!#$%&'*+-.^_`|~09azaz", b"v")]);
}

#[test]
fn try_header_adds_a_well_formed_header() {
    let request = client()
        .get("/")
        .try_header("Content-Type", b"text/plain")
        .unwrap()
        .into_request();
    assert_eq!(request.headers, vec![header("content-type", b"text/plain")]);
}

#[test]
fn try_header_refuses_a_malformed_name() {
    for name in ["", "bad name", "a:b", "a\"b", "(x)", "caf\u{e9}", "a\tb", "a\0b", "x[1]", "a=b"] {
        let refused = client().get("/").try_header(name, b"v");
        assert_eq!(refused.err(), Some(HeaderError::InvalidName), "{:?}", name);
    }
}

#[test]
fn try_header_refuses_a_malformed_value() {
    for value in [&b"a\nb"[..], b"a\rb", b"\0", b"\x7f", b"a\x1fb"] {
        let refused = client().get("/").try_header("x-a", value);
        assert_eq!(refused.err(), Some(HeaderError::InvalidValue), "{:?}", value);
    }
}

#[test]
fn try_header_looks_at_the_name_first() {
    let refused = client().get("/").try_header("bad name", b"a\nb");
    assert_eq!(refused.err(), Some(HeaderError::InvalidName));
}

#[test]
fn header_value_may_hold_tab_space_and_high_bytes() {
    let value = b"a\tb c\x80\xff~";
    let request = client().get("/").try_header("x-a", value).unwrap().into_request();
    assert_eq!(request.headers, vec![header("x-a", value)]);
}

#[test]
fn header_name_may_be_long_but_not_too_long() {
    let longest = "a".repeat(65535);
    let request = client().get("/").try_header(&longest, b"v").unwrap().into_request();
    assert_eq!(request.headers[0].0, longest);
    let upper = "A".repeat(65);
    let request = client().get("/").try_header(&upper, b"v").unwrap().into_request();
    assert_eq!(request.headers[0].0, "a".repeat(65));
    let too_long = "a".repeat(65536);
    let refused = client().get("/").try_header(&too_long, b"v");
    assert_eq!(refused.err(), Some(HeaderError::InvalidName));
}

#[test]
fn body_sets_the_bytes_and_no_header() {
    let request = client().post("/").body(vec![0, 159, 146, 150]).into_request();
    assert_eq!(body_of(&request), Some(&[0u8, 159, 146, 150][..]));
    assert!(request.headers.is_empty());
}

#[test]
fn later_body_replaces_the_earlier() {
    let request = client()
        .post("/")
        .body(b"first".to_vec())
        .body(b"second".to_vec())
        .into_request();
    assert_eq!(body_of(&request), Some(&b"second"[..]));
}

#[test]
fn form_sets_body_and_content_type() {
    let request = client().post("/").form("val=bar&baz=quux".to_owned()).into_request();
    assert_eq!(body_of(&request), Some(&b"val=bar&baz=quux"[..]));
    assert_eq!(
        request.headers,
        vec![header("content-type", b"application/x-www-form-urlencoded")]
    );
}

#[test]
fn form_keeps_a_content_type_that_is_there() {
    let request = client()
        .post("/")
        .header("Content-Type", b"text/plain")
        .header("x-a", b"1")
        .form("a=1".to_owned())
        .into_request();
    assert_eq!(
        request.headers,
        vec![header("content-type", b"text/plain"), header("x-a", b"1")]
    );
    assert_eq!(body_of(&request), Some(&b"a=1"[..]));
}

#[test]
fn form_body_is_the_text_in_utf8() {
    let request = client().post("/").form("n=caf\u{e9}".to_owned()).into_request();
    assert_eq!(body_of(&request), Some(&b"n=caf\xc3\xa9"[..]));
}

#[test]
fn json_sets_body_and_content_type() {
    let request = client().post("/").json(b"{\"age\":30}".to_vec()).into_request();
    assert_eq!(body_of(&request), Some(&b"{\"age\":30}"[..]));
    assert_eq!(request.headers, vec![header("content-type", b"application/json")]);
}

#[test]
fn json_keeps_a_content_type_that_is_there() {
    let request = client()
        .post("/")
        .header("x-a", b"1")
        .header("CONTENT-TYPE", b"application/vnd.api+json")
        .json(b"{}".to_vec())
        .into_request();
    assert_eq!(
        request.headers,
        vec![
            header("x-a", b"1"),
            header("content-type", b"application/vnd.api+json"),
        ]
    );
}

#[test]
fn content_type_is_added_behind_other_headers() {
    let request = client()
        .post("/")
        .header("x-a", b"1")
        .json(b"[]".to_vec())
        .header("x-b", b"2")
        .into_request();
    assert_eq!(
        request.headers,
        vec![
            header("x-a", b"1"),
            header("content-type", b"application/json"),
            header("x-b", b"2"),
        ]
    );
}

#[test]
fn form_after_json_keeps_the_first_content_type() {
    let request = client()
        .post("/")
        .json(b"[]".to_vec())
        .form("a=1".to_owned())
        .into_request();
    assert_eq!(request.headers, vec![header("content-type", b"application/json")]);
    assert_eq!(body_of(&request), Some(&b"a=1"[..]));
}

#[test]
fn multipart_sets_the_form_and_keeps_the_rest() {
    let form = reqwest::multipart::Form::new().text("key", "value");
    let boundary = form.boundary().to_owned();
    let request = client()
        .post("/upload")
        .header("x-a", b"1")
        .multipart(form)
        .into_request();
    assert_eq!(request.method, Method::Post);
    assert_eq!(request.url, "http://127.0.0.1:8080/upload");
    assert_eq!(request.headers, vec![header("x-a", b"1")]);
    match request.payload {
        Payload::Multipart(kept) => assert_eq!(kept.boundary(), boundary),
        _ => panic!("the payload is not the form"),
    }
}
