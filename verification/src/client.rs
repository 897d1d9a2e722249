//! The harness: where its server listens, how its client is set up, and the
//! requests it starts.

use crate::address::ServerAddr;
use crate::request::{Method, PayloadView, RequestBuilder, RequestView};
use vstd::prelude::*;
use vstd::string::*;

verus! {

/// How the HTTP client of a harness is set up.
#[derive(Clone, Copy, Debug, PartialEq, Eq, Structural)]
pub struct ClientOptions {
    /// Whether the client follows a redirect by itself.
    pub follow_redirects: bool,
    /// Whether the client keeps the cookies it is sent and sends them back.
    pub cookie_store: bool,
}

/// What a harness is: the address of its server, and whether its client
/// keeps cookies.
pub struct ClientView {
    pub addr: ServerAddr,
    pub cookies: bool,
}

/// The URL of the server at `addr`, without a path.
pub open spec fn base_url_of(addr: ServerAddr) -> Seq<char> {
    "http://"@ + addr.text()
}

/// The URL of `path` on the server at `addr`.
pub open spec fn url_of(addr: ServerAddr, path: Seq<char>) -> Seq<char> {
    base_url_of(addr) + path
}

/// The request that a harness starts: the verb on the URL of the path, with
/// no headers and no body.
pub open spec fn fresh_request(addr: ServerAddr, method: Method, path: Seq<char>) -> RequestView {
    RequestView {
        method,
        url: url_of(addr, path),
        headers: Seq::empty(),
        payload: PayloadView::Empty,
    }
}

/// A harness around one server. Its address does not change.
pub struct TestClient {
    addr: ServerAddr,
    cookies: bool,
}

impl View for TestClient {
    type V = ClientView;

    closed spec fn view(&self) -> ClientView {
        ClientView { addr: self.addr, cookies: self.cookies }
    }
}

impl TestClient {
    /// The harness for the server that listens at `addr`. With `cookies`
    /// its client keeps cookies from one request to the next.
    pub fn new(addr: ServerAddr, cookies: bool) -> (client: TestClient)
        ensures
            client@ == (ClientView { addr, cookies }),
    {
        TestClient { addr, cookies }
    }

    /// The address of the server.
    pub fn addr(&self) -> (addr: ServerAddr)
        ensures
            addr == self@.addr,
    {
        self.addr
    }

    /// How the client is to be set up: it never follows a redirect, and it
    /// keeps cookies exactly when the harness was made to.
    pub fn options(&self) -> (options: ClientOptions)
        ensures
            options == (ClientOptions { follow_redirects: false, cookie_store: self@.cookies }),
    {
        ClientOptions { follow_redirects: false, cookie_store: self.cookies }
    }

    /// The URL of the server, without a path.
    pub fn base_url(&self) -> (url: String)
        ensures
            url@ == base_url_of(self@.addr),
    {
        let mut url = String::from_str("http://");
        self.addr.write_to(&mut url);
        url
    }

    /// Starts a request with the given verb for `path` on the server.
    pub fn request(&self, method: Method, path: &str) -> (builder: RequestBuilder)
        ensures
            builder@ == fresh_request(self@.addr, method, path@),
    {
        let mut url = self.base_url();
        url.append(path);
        RequestBuilder::new(method, url)
    }

    /// Starts a GET request for `path`.
    pub fn get(&self, path: &str) -> (builder: RequestBuilder)
        ensures
            builder@ == fresh_request(self@.addr, Method::Get, path@),
    {
        self.request(Method::Get, path)
    }

    /// Starts a HEAD request for `path`.
    pub fn head(&self, path: &str) -> (builder: RequestBuilder)
        ensures
            builder@ == fresh_request(self@.addr, Method::Head, path@),
    {
        self.request(Method::Head, path)
    }

    /// Starts a POST request for `path`.
    pub fn post(&self, path: &str) -> (builder: RequestBuilder)
        ensures
            builder@ == fresh_request(self@.addr, Method::Post, path@),
    {
        self.request(Method::Post, path)
    }

    /// Starts a PUT request for `path`.
    pub fn put(&self, path: &str) -> (builder: RequestBuilder)
        ensures
            builder@ == fresh_request(self@.addr, Method::Put, path@),
    {
        self.request(Method::Put, path)
    }

    /// Starts a PATCH request for `path`.
    pub fn patch(&self, path: &str) -> (builder: RequestBuilder)
        ensures
            builder@ == fresh_request(self@.addr, Method::Patch, path@),
    {
        self.request(Method::Patch, path)
    }

    /// Starts a DELETE request for `path`.
    pub fn delete(&self, path: &str) -> (builder: RequestBuilder)
        ensures
            builder@ == fresh_request(self@.addr, Method::Delete, path@),
    {
        self.request(Method::Delete, path)
    }
}

} // verus!
