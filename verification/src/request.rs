//! A request in the making: where it goes and what it carries.

use crate::header::{
    accepts_header_value, canonical_name, canonical_name_is_canonical, has_name, header_seq,
    is_canonical_name, is_header_name, is_header_value, parse_header_name, well_formed, HeaderSeq,
};
use reqwest::multipart::Form;
use vstd::prelude::*;
use vstd::slice::slice_to_vec;
use vstd::string::*;
use vstd::utf8::*;

verus! {

/// `reqwest::multipart::Form`, a multipart body with its boundary.
#[verifier::external_type_specification]
#[verifier::external_body]
pub struct ExForm(reqwest::multipart::Form);

/// The verbs that a request can be made with.
#[derive(Clone, Copy, Debug, PartialEq, Eq, Structural)]
pub enum Method {
    Get,
    Head,
    Post,
    Put,
    Patch,
    Delete,
}

/// The body of a request.
pub enum Payload {
    /// No body.
    Empty,
    /// These bytes.
    Bytes(Vec<u8>),
    /// A multipart form, which brings its own content type.
    Multipart(Form),
}

/// What the body of a request is.
pub enum PayloadView {
    Empty,
    Bytes(Seq<u8>),
    Multipart(Form),
}

impl View for Payload {
    type V = PayloadView;

    open spec fn view(&self) -> PayloadView {
        match *self {
            Payload::Empty => PayloadView::Empty,
            Payload::Bytes(bytes) => PayloadView::Bytes(bytes@),
            Payload::Multipart(form) => PayloadView::Multipart(form),
        }
    }
}

/// What a request is: its verb, its URL, its headers in the order in which
/// they were added, and its body.
pub struct RequestView {
    pub method: Method,
    pub url: Seq<char>,
    pub headers: HeaderSeq,
    pub payload: PayloadView,
}

/// The name of the header that tells the type of a body.
pub open spec fn content_type() -> Seq<char> {
    "content-type"@
}

/// The content type of a URL-encoded form.
pub open spec fn form_type() -> Seq<char> {
    "application/x-www-form-urlencoded"@
}

/// The content type of a JSON document.
pub open spec fn json_type() -> Seq<char> {
    "application/json"@
}

/// The headers with a content type: as they are where they name one
/// already, else with `kind` added at the end.
pub open spec fn with_content_type(headers: HeaderSeq, kind: Seq<char>) -> HeaderSeq {
    if has_name(headers, content_type()) {
        headers
    } else {
        headers.push((content_type(), encode_utf8(kind)))
    }
}

/// Why a header was not added.
#[derive(Clone, Copy, Debug, PartialEq, Eq, Structural)]
pub enum HeaderError {
    /// The name is not a well-formed header name.
    InvalidName,
    /// The value holds a byte that no header value may hold.
    InvalidValue,
}

/// A finished request, handed over to be sent.
pub struct Request {
    pub method: Method,
    pub url: String,
    pub headers: Vec<(String, Vec<u8>)>,
    pub payload: Payload,
}

impl View for Request {
    type V = RequestView;

    open spec fn view(&self) -> RequestView {
        RequestView {
            method: self.method,
            url: self.url@,
            headers: header_seq(self.headers@),
            payload: self.payload@,
        }
    }
}

/// A request that is being put together.
pub struct RequestBuilder {
    method: Method,
    url: String,
    headers: Vec<(String, Vec<u8>)>,
    payload: Payload,
}

impl View for RequestBuilder {
    type V = RequestView;

    closed spec fn view(&self) -> RequestView {
        RequestView {
            method: self.method,
            url: self.url@,
            headers: header_seq(self.headers@),
            payload: self.payload@,
        }
    }
}

impl RequestBuilder {
    #[verifier::type_invariant]
    spec fn inv(self) -> bool {
        well_formed(self@.headers)
    }

    /// A request with the given verb and URL, without headers or body.
    pub fn new(method: Method, url: String) -> (builder: RequestBuilder)
        ensures
            builder@ == (RequestView {
                method,
                url: url@,
                headers: Seq::empty(),
                payload: PayloadView::Empty,
            }),
    {
        let builder = RequestBuilder { method, url, headers: Vec::new(), payload: Payload::Empty };
        assert(builder@.headers =~= Seq::empty());
        builder
    }

    /// Adds a header behind those that the request has. The name is kept in
    /// canonical form. Name and value have to be well formed: see
    /// `try_header` for ones that may not be.
    pub fn header(self, key: &str, value: &[u8]) -> (builder: RequestBuilder)
        requires
            is_header_name(key@),
            is_header_value(value@),
        ensures
            builder@ == (RequestView {
                headers: self@.headers.push((canonical_name(key@), value@)),
                ..self@
            }),
    {
        match parse_header_name(key) {
            Some(name) => {
                proof {
                    canonical_name_is_canonical(key@);
                }
                self.push_header(name, slice_to_vec(value))
            },
            None => self,
        }
    }

    /// Adds a header behind those that the request has, if name and value
    /// are well formed. The name is looked at first.
    pub fn try_header(self, key: &str, value: &[u8]) -> (added: Result<RequestBuilder, HeaderError>)
        ensures
            !is_header_name(key@) ==> added == Err::<RequestBuilder, HeaderError>(
                HeaderError::InvalidName,
            ),
            is_header_name(key@) && !is_header_value(value@) ==> added == Err::<
                RequestBuilder,
                HeaderError,
            >(HeaderError::InvalidValue),
            is_header_name(key@) && is_header_value(value@) ==> (added matches Ok(builder)
                && builder@ == (RequestView {
                headers: self@.headers.push((canonical_name(key@), value@)),
                ..self@
            })),
    {
        match parse_header_name(key) {
            Some(name) => {
                if accepts_header_value(value) {
                    proof {
                        canonical_name_is_canonical(key@);
                    }
                    Ok(self.push_header(name, slice_to_vec(value)))
                } else {
                    Err(HeaderError::InvalidValue)
                }
            },
            None => Err(HeaderError::InvalidName),
        }
    }

    /// Adds a header that is known to be well formed.
    fn push_header(self, name: String, value: Vec<u8>) -> (builder: RequestBuilder)
        requires
            is_canonical_name(name@),
            is_header_value(value@),
        ensures
            builder@ == (RequestView { headers: self@.headers.push((name@, value@)), ..self@ }),
    {
        proof {
            use_type_invariant(&self);
        }
        let ghost before = self@;
        let mut headers = self.headers;
        headers.push((name, value));
        assert(header_seq(headers@) =~= before.headers.push((name@, value@)));
        RequestBuilder { method: self.method, url: self.url, headers, payload: self.payload }
    }

    /// Whether the request names a content type.
    fn has_content_type(&self) -> (found: bool)
        ensures
            found == has_name(self@.headers, content_type()),
    {
        let name = String::from_str("content-type");
        let mut i: usize = 0;
        while i < self.headers.len()
            invariant
                i <= self.headers.len(),
                name@ == content_type(),
                forall|j: int| 0 <= j < i ==> (#[trigger] header_seq(self.headers@)[j]).0 != name@,
            decreases self.headers.len() - i,
        {
            if self.headers[i].0 == name {
                assert(header_seq(self.headers@)[i as int].0 == name@);
                return true;
            }
            i += 1;
        }
        false
    }

    /// Sets the body to the given bytes and, unless the request names a
    /// content type already, their type to `kind`.
    fn typed_body(self, kind: &str, body: Vec<u8>) -> (builder: RequestBuilder)
        requires
            is_header_value(encode_utf8(kind@)),
        ensures
            builder@ == (RequestView {
                headers: with_content_type(self@.headers, kind@),
                payload: PayloadView::Bytes(body@),
                ..self@
            }),
    {
        if self.has_content_type() {
            self.body(body)
        } else {
            proof {
                content_type_is_canonical();
            }
            self.push_header(String::from_str("content-type"), kind.as_bytes_vec()).body(body)
        }
    }

    /// Sets the body to a URL-encoded form, which the caller has encoded,
    /// and says so in the content type unless the request names one already.
    pub fn form(self, encoded: String) -> (builder: RequestBuilder)
        ensures
            builder@ == (RequestView {
                headers: with_content_type(self@.headers, form_type()),
                payload: PayloadView::Bytes(encode_utf8(encoded@)),
                ..self@
            }),
    {
        proof {
            reveal_strlit("application/x-www-form-urlencoded");
            printable_is_header_value(form_type());
        }
        self.typed_body("application/x-www-form-urlencoded", encoded.as_str().as_bytes_vec())
    }

    /// Sets the body to a JSON document, which the caller has serialised,
    /// and says so in the content type unless the request names one already.
    pub fn json(self, encoded: Vec<u8>) -> (builder: RequestBuilder)
        ensures
            builder@ == (RequestView {
                headers: with_content_type(self@.headers, json_type()),
                payload: PayloadView::Bytes(encoded@),
                ..self@
            }),
    {
        proof {
            reveal_strlit("application/json");
            printable_is_header_value(json_type());
        }
        self.typed_body("application/json", encoded)
    }

    /// Sets the body to the given bytes.
    pub fn body(self, body: Vec<u8>) -> (builder: RequestBuilder)
        ensures
            builder@ == (RequestView { payload: PayloadView::Bytes(body@), ..self@ }),
    {
        proof {
            use_type_invariant(&self);
        }
        RequestBuilder {
            method: self.method,
            url: self.url,
            headers: self.headers,
            payload: Payload::Bytes(body),
        }
    }

    /// Sets the body to a multipart form.
    pub fn multipart(self, form: Form) -> (builder: RequestBuilder)
        ensures
            builder@ == (RequestView { payload: PayloadView::Multipart(form), ..self@ }),
    {
        proof {
            use_type_invariant(&self);
        }
        RequestBuilder {
            method: self.method,
            url: self.url,
            headers: self.headers,
            payload: Payload::Multipart(form),
        }
    }

    /// The finished request.
    pub fn into_request(self) -> (request: Request)
        ensures
            request@ == self@,
            well_formed(request@.headers),
    {
        proof {
            use_type_invariant(&self);
        }
        Request { method: self.method, url: self.url, headers: self.headers, payload: self.payload }
    }
}

/// Whether `c` is a printable ASCII character, the space included.
pub open spec fn is_printable(c: char) -> bool {
    ' ' <= c && c <= '~'
}

/// Text of printable ASCII characters encodes to a well-formed header value.
pub proof fn printable_is_header_value(text: Seq<char>)
    requires
        forall|i: int| 0 <= i < text.len() ==> is_printable(#[trigger] text[i]),
    ensures
        is_header_value(encode_utf8(text)),
{
    assert(is_ascii_chars(text));
    is_ascii_chars_encode_utf8(text);
    let bytes = encode_utf8(text);
    assert forall|i: int| 0 <= i < bytes.len() implies crate::header::is_value_byte(
        #[trigger] bytes[i],
    ) by {
        assert(is_printable(text[i]));
        assert(bytes[i] == text[i] as u8);
    }
}

/// The name of the content type header is a canonical header name.
pub proof fn content_type_is_canonical()
    ensures
        is_canonical_name(content_type()),
{
    reveal_strlit("content-type");
    let name = content_type();
    assert forall|i: int| 0 <= i < name.len() implies crate::header::is_name_char(
        #[trigger] name[i],
    ) && crate::header::lower(name[i]) == name[i] by {}
    assert(canonical_name(name) =~= name);
}

} // verus!
