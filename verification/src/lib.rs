//! A harness for exercising an HTTP application in tests.
//!
//! The library holds the part of the harness that decides: where the server
//! is bound, which URL a request goes to, what a request carries, and what a
//! received response reports. Sockets, the client and the runtime live with
//! the caller, which hands plain values in and takes plain values back.

pub mod address;
pub mod body;
pub mod client;
pub mod header;
pub mod request;
pub mod response;

pub use address::ServerAddr;
pub use client::{ClientOptions, TestClient};
pub use request::{HeaderError, Method, Payload, Request, RequestBuilder};
pub use response::{TestResponse, Utf8Error};
