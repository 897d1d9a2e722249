//! Requests made by the library are handed to a real application, in this
//! process, and what it answers is read through the library.

use std::collections::HashMap;

use axum::body::Body;
use axum::response::Html;
use axum::routing::{get, post};
use axum::{Form, Json, Router};
use axum_test_helper::{Method, Payload, RequestBuilder, ServerAddr, TestClient, TestResponse};
use http::header::LOCATION;
use http::StatusCode;
use tower_service::Service;

fn client() -> TestClient {
    TestClient::new(ServerAddr::new(127, 0, 0, 1, 3000), false)
}

/// Gives the request to the application and collects its answer.
fn send(app: &Router, builder: RequestBuilder) -> TestResponse {
    let request = builder.into_request();
    let method = match request.method {
        Method::Get => http::Method::GET,
        Method::Head => http::Method::HEAD,
        Method::Post => http::Method::POST,
        Method::Put => http::Method::PUT,
        Method::Patch => http::Method::PATCH,
        Method::Delete => http::Method::DELETE,
    };
    let mut outgoing = http::Request::builder().method(method).uri(request.url);
    for (name, value) in request.headers {
        outgoing = outgoing.header(name, value);
    }
    let outgoing = match request.payload {
        Payload::Empty => outgoing.body(Body::empty()).unwrap(),
        Payload::Bytes(bytes) => outgoing.body(Body::from(bytes)).unwrap(),
        Payload::Multipart(_) => panic!("no multipart request is made here"),
    };
    let runtime = tokio::runtime::Builder::new_current_thread()
        .build()
        .unwrap();
    let mut app = app.clone();
    runtime.block_on(async {
        let response = app.call(outgoing).await.unwrap();
        let status = response.status().as_u16();
        let headers = response
            .headers()
            .iter()
            .map(|(name, value)| (name.as_str().to_owned(), value.as_bytes().to_vec()))
            .collect();
        let body = axum::body::to_bytes(response.into_body(), usize::MAX)
            .await
            .unwrap();
        TestResponse::new(status, headers, vec![body.to_vec()]).unwrap()
    })
}

async fn handle_form(Form(form): Form<HashMap<String, String>>) -> (StatusCode, Html<String>) {
    (StatusCode::OK, Html(form["val"].clone()))
}

#[test]
fn test_get_request() {
    let app = Router::new().route("/", get(|| async {}));
    let client = client();
    let res = send(&app, client.get("/"));
    assert_eq!(res.status(), StatusCode::OK);
}

#[test]
fn test_main_router() {
    let app = Router::new().route("/", get(|| async { Html("<h1>Hello, World!</h1>") }));
    let client = client();
    let res = send(&app, client.get("/"));
    assert_eq!(res.status(), StatusCode::OK);
    assert_eq!(res.text(), "<h1>Hello, World!</h1>");
}

#[test]
fn test_post_form_request() {
    let app = Router::new().route("/", post(handle_form));
    let client = client();
    let form = [("val", "bar"), ("baz", "quux")];
    let encoded = serde_urlencoded::to_string(form).unwrap();
    let res = send(&app, client.post("/").form(encoded));
    assert_eq!(res.status(), StatusCode::OK);
    assert_eq!(res.text(), "bar");
}

#[test]
fn test_post_request_with_json() {
    let app = Router::new().route(
        "/",
        post(|json_value: Json<serde_json::Value>| async { json_value }),
    );
    let client = client();
    let mut fields = serde_json::Map::new();
    fields.insert("name".to_owned(), serde_json::Value::from("Alice"));
    fields.insert("age".to_owned(), serde_json::Value::from(30));
    let payload = serde_json::Value::Object(fields);
    let res = send(
        &app,
        client
            .post("/")
            .header("Content-Type", b"application/json")
            .json(serde_json::to_vec(&payload).unwrap()),
    );
    assert_eq!(res.status(), StatusCode::OK);
    let response_body: serde_json::Value = serde_json::from_str(&res.text()).unwrap();
    assert_eq!(response_body, payload);
}

#[test]
fn json_body_is_taken_without_a_content_type_of_the_callers() {
    let app = Router::new().route(
        "/",
        post(|json_value: Json<serde_json::Value>| async { json_value }),
    );
    let payload = serde_json::Value::from(vec![1, 2, 3]);
    let res = send(
        &app,
        client().post("/").json(serde_json::to_vec(&payload).unwrap()),
    );
    assert_eq!(res.status(), StatusCode::OK);
    let echoed: serde_json::Value = serde_json::from_slice(&res.bytes()).unwrap();
    assert_eq!(echoed, payload);
}

#[test]
fn raw_body_alone_is_no_form() {
    let app = Router::new().route("/", post(handle_form));
    let res = send(&app, client().post("/").body(b"val=bar".to_vec()));
    assert_eq!(res.status(), StatusCode::UNSUPPORTED_MEDIA_TYPE);
}

#[test]
fn redirect_is_reported_and_not_followed() {
    let app = Router::new()
        .route(
            "/old",
            get(|| async { (StatusCode::SEE_OTHER, [(LOCATION, "/new?from=old")]) }),
        )
        .route("/new", get(|| async { "arrived" }));
    let client = client();
    assert!(!client.options().follow_redirects);
    let res = send(&app, client.get("/old"));
    assert_eq!(res.status(), StatusCode::SEE_OTHER);
    let headers = res.headers();
    assert_eq!(headers.get(LOCATION).unwrap().as_bytes(), b"/new?from=old");
    assert_eq!(res.text(), "");
}

#[test]
fn each_verb_reaches_its_route() {
    let app = Router::new().route(
        "/thing",
        get(|| async { "get" })
            .post(|| async { "post" })
            .put(|| async { "put" })
            .patch(|| async { "patch" })
            .delete(|| async { "delete" }),
    );
    let client = client();
    assert_eq!(send(&app, client.get("/thing")).text(), "get");
    assert_eq!(send(&app, client.post("/thing")).text(), "post");
    assert_eq!(send(&app, client.put("/thing")).text(), "put");
    assert_eq!(send(&app, client.patch("/thing")).text(), "patch");
    assert_eq!(send(&app, client.delete("/thing")).text(), "delete");
    let head = send(&app, client.head("/thing"));
    assert_eq!(head.status(), StatusCode::OK);
    assert_eq!(head.text(), "");
}

#[test]
fn header_reaches_the_application() {
    let app = Router::new().route(
        "/",
        get(|headers: http::HeaderMap| async move {
            headers.get("x-token").unwrap().to_str().unwrap().to_owned()
        }),
    );
    let res = send(&app, client().get("/").header("X-Token", b"s3cr3t"));
    assert_eq!(res.text(), "s3cr3t");
}

#[test]
fn unknown_path_is_not_found() {
    let app = Router::new().route("/", get(|| async {}));
    let res = send(&app, client().get("/missing"));
    assert_eq!(res.status(), StatusCode::NOT_FOUND);
}
