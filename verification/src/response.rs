//! A received response and what it reports.

use crate::body::{bytes_from_vec, bytes_view, chunk_seq, join, string_from_utf8};
use crate::header::{
    accepts_header_value, by_name, by_name_push, canonical_name, canonical_name_is_canonical,
    header_map_append, header_map_len, header_map_new, header_map_values, header_seq,
    is_canonical_name, is_header_name, is_header_value, parse_header_name, well_formed,
    HeaderSeq, HeaderValues, MAX_HEADERS,
};
use bytes::Bytes;
use http::header::{HeaderMap, HeaderValue};
use http::StatusCode;
use vstd::prelude::*;
use vstd::utf8::*;

verus! {

/// `http::StatusCode`, a status between 100 and 999.
#[verifier::external_type_specification]
#[verifier::external_body]
pub struct ExStatusCode(http::StatusCode);

/// The number of a status code, as `StatusCode::as_u16` gives it.
pub uninterp spec fn status_number(code: StatusCode) -> u16;

/// Makes a status code with `http::StatusCode::from_u16`.
///
/// Trusted: a number between 100 and 999 is accepted, and the code bears
/// that number.
#[verifier::external_body]
pub(crate) fn status_code(number: u16) -> (code: StatusCode)
    requires
        100 <= number <= 999,
    ensures
        status_number(code) == number,
{
    StatusCode::from_u16(number).unwrap()
}

/// What a response is: its status, its headers in the order in which they
/// arrived, and the part of its body that has arrived and has not been
/// read, in the chunks in which it arrived.
pub struct ResponseView {
    pub status: u16,
    pub headers: HeaderSeq,
    pub chunks: Seq<Seq<u8>>,
}

impl ResponseView {
    /// Whether a response may look like this: a status between 100 and 999
    /// and at most `MAX_HEADERS` headers, each with a canonical name and a
    /// well-formed value.
    pub open spec fn wf(self) -> bool {
        &&& 100 <= self.status <= 999
        &&& self.headers.len() <= MAX_HEADERS
        &&& well_formed(self.headers)
    }

    /// The unread part of the body as one sequence of bytes.
    pub open spec fn body(self) -> Seq<u8> {
        self.chunks.flatten()
    }

    /// The chunk that is read next, if any is left.
    pub open spec fn next_chunk(self) -> Option<Seq<u8>> {
        if self.chunks.len() == 0 {
            None
        } else {
            Some(self.chunks[0])
        }
    }

    /// The response once the next chunk has been read.
    pub open spec fn after_chunk(self) -> ResponseView {
        if self.chunks.len() == 0 {
            self
        } else {
            ResponseView { chunks: self.chunks.drop_first(), ..self }
        }
    }

    /// The bytes that come out when chunk after chunk is read until none is
    /// left, put together in the order in which they were read.
    pub open spec fn chunks_until_end(self) -> Seq<u8>
        decreases self.chunks.len(),
    {
        match self.next_chunk() {
            None => Seq::empty(),
            Some(chunk) => chunk + self.after_chunk().chunks_until_end(),
        }
    }
}

/// The headers of a response as they are kept: each name in canonical form.
pub open spec fn kept_headers(headers: HeaderSeq) -> HeaderSeq {
    Seq::new(headers.len(), |i: int| (canonical_name(headers[i].0), headers[i].1))
}

/// Whether a response can be made of these parts: the status lies between
/// 100 and 999, there are at most `MAX_HEADERS` headers, and each has a
/// well-formed name and value.
pub open spec fn acceptable(status: u16, headers: HeaderSeq) -> bool {
    &&& 100 <= status <= 999
    &&& headers.len() <= MAX_HEADERS
    &&& forall|i: int|
        0 <= i < headers.len() ==> is_header_name((#[trigger] headers[i]).0) && is_header_value(
            headers[i].1,
        )
}

/// A response as it was received. Its body is read once, from the front:
/// chunk by chunk, or all that is left in one piece.
pub struct TestResponse {
    status: u16,
    headers: Vec<(String, Vec<u8>)>,
    /// The body, as far as it has arrived, in the chunks in which it did.
    chunks: Vec<Vec<u8>>,
    /// How many of the chunks have been read.
    read: usize,
}

impl View for TestResponse {
    type V = ResponseView;

    closed spec fn view(&self) -> ResponseView {
        ResponseView {
            status: self.status,
            headers: header_seq(self.headers@),
            chunks: chunk_seq(self.chunks@).skip(self.read as int),
        }
    }
}

impl TestResponse {
    #[verifier::type_invariant]
    spec fn inv(self) -> bool {
        self@.wf() && self.read <= self.chunks.len()
    }

    /// Makes a response of a status, headers and the chunks of a body.
    /// Header names are put into canonical form. Parts of which no response
    /// can be made give `None`.
    pub fn new(status: u16, headers: Vec<(String, Vec<u8>)>, chunks: Vec<Vec<u8>>) -> (made: Option<
        TestResponse,
    >)
        ensures
            made is Some <==> acceptable(status, header_seq(headers@)),
            made matches Some(response) ==> response@ == (ResponseView {
                status,
                headers: kept_headers(header_seq(headers@)),
                chunks: chunk_seq(chunks@),
            }) && response@.wf(),
    {
        if status < 100 || status > 999 || headers.len() > MAX_HEADERS {
            return None;
        }
        let ghost given = header_seq(headers@);
        let mut kept: Vec<(String, Vec<u8>)> = Vec::new();
        let mut i: usize = 0;
        while i < headers.len()
            invariant
                i <= headers.len(),
                given == header_seq(headers@),
                header_seq(kept@) =~= kept_headers(given.take(i as int)),
                well_formed(header_seq(kept@)),
                forall|j: int|
                    0 <= j < i ==> is_header_name((#[trigger] given[j]).0) && is_header_value(
                        given[j].1,
                    ),
            decreases headers.len() - i,
        {
            let ghost before = header_seq(kept@);
            let name = match parse_header_name(headers[i].0.as_str()) {
                Some(name) => name,
                None => {
                    assert(!is_header_name(given[i as int].0));
                    return None;
                },
            };
            if !accepts_header_value(headers[i].1.as_slice()) {
                assert(!is_header_value(given[i as int].1));
                return None;
            }
            let value = headers[i].1.clone();
            proof {
                canonical_name_is_canonical(given[i as int].0);
                assert(value@ == given[i as int].1);
            }
            kept.push((name, value));
            proof {
                let entry = (canonical_name(given[i as int].0), given[i as int].1);
                assert(header_seq(kept@) =~= before.push(entry));
                assert(given.take(i + 1) =~= given.take(i as int).push(given[i as int]));
                assert(kept_headers(given.take(i + 1)) =~= kept_headers(given.take(i as int)).push(
                    entry,
                ));
            }
            i += 1;
        }
        proof {
            assert(given.take(i as int) =~= given);
            assert(chunk_seq(chunks@).skip(0) =~= chunk_seq(chunks@));
        }
        Some(TestResponse { status, headers: kept, chunks, read: 0 })
    }

    /// The status of the response.
    pub fn status(&self) -> (code: StatusCode)
        ensures
            status_number(code) == self@.status,
    {
        proof {
            use_type_invariant(self);
        }
        status_code(self.status)
    }

    /// The headers of the response: every name with all its values, in the
    /// order in which they arrived.
    pub fn headers(&self) -> (map: HeaderMap<HeaderValue>)
        ensures
            header_map_values(map) == by_name(self@.headers),
    {
        proof {
            use_type_invariant(self);
        }
        let ghost all = header_seq(self.headers@);
        let mut map = header_map_new();
        let mut i: usize = 0;
        assert(all.take(0) =~= Seq::empty());
        assert(by_name(all.take(0)) =~= HeaderValues::empty());
        while i < self.headers.len()
            invariant
                i <= self.headers.len(),
                all == header_seq(self.headers@),
                all.len() <= MAX_HEADERS,
                well_formed(all),
                header_map_len(map) == i,
                header_map_values(map) == by_name(all.take(i as int)),
            decreases self.headers.len() - i,
        {
            let ghost entry = all[i as int];
            assert(is_canonical_name(entry.0) && is_header_value(entry.1));
            header_map_append(&mut map, self.headers[i].0.as_str(), self.headers[i].1.as_slice());
            proof {
                by_name_push(all.take(i as int), entry.0, entry.1);
                assert(all.take(i + 1) =~= all.take(i as int).push(entry));
            }
            i += 1;
        }
        proof {
            assert(all.take(i as int) =~= all);
        }
        map
    }

    /// Reads the next chunk of the body. `None` tells that the body has been
    /// read to its end.
    pub fn chunk(&mut self) -> (read: Option<Bytes>)
        ensures
            read is Some <==> old(self)@.next_chunk() is Some,
            read matches Some(buffer) ==> old(self)@.next_chunk() == Some(bytes_view(buffer)),
            final(self)@ == old(self)@.after_chunk(),
    {
        match self.take_chunk() {
            Some(chunk) => Some(bytes_from_vec(chunk)),
            None => None,
        }
    }

    /// Takes in a chunk of the body that has arrived: it is read after
    /// those that the response holds.
    pub fn push_chunk(&mut self, chunk: Vec<u8>)
        ensures
            final(self)@ == (ResponseView {
                chunks: old(self)@.chunks.push(chunk@),
                ..old(self)@
            }),
    {
        proof {
            use_type_invariant(&*self);
        }
        let ghost before = chunk_seq(self.chunks@);
        let read = self.read;
        let mut chunks: Vec<Vec<u8>> = Vec::new();
        self.read = 0;
        std::mem::swap(&mut self.chunks, &mut chunks);
        chunks.push(chunk);
        std::mem::swap(&mut self.chunks, &mut chunks);
        self.read = read;
        proof {
            assert(chunk_seq(self.chunks@) =~= before.push(chunk@));
            assert(chunk_seq(self.chunks@).skip(read as int) =~= before.skip(read as int).push(
                chunk@,
            ));
        }
    }

    /// Takes the next chunk off the body.
    fn take_chunk(&mut self) -> (read: Option<Vec<u8>>)
        ensures
            read is Some <==> old(self)@.next_chunk() is Some,
            read matches Some(chunk) ==> old(self)@.next_chunk() == Some(chunk@),
            final(self)@ == old(self)@.after_chunk(),
    {
        proof {
            use_type_invariant(&*self);
        }
        if self.read < self.chunks.len() {
            let ghost rest = chunk_seq(self.chunks@).skip(self.read as int);
            let chunk = self.chunks[self.read].clone();
            self.read = self.read + 1;
            proof {
                assert(chunk@ == rest[0]);
                assert(chunk_seq(self.chunks@).skip(self.read as int) =~= rest.drop_first());
            }
            Some(chunk)
        } else {
            None
        }
    }

    /// Reads the next chunk of the body as text. The chunk has to be valid
    /// UTF-8: see `try_chunk_text` for one that may not be.
    pub fn chunk_text(&mut self) -> (read: Option<String>)
        requires
            old(self)@.next_chunk() matches Some(chunk) ==> valid_utf8(chunk),
        ensures
            read is Some <==> old(self)@.next_chunk() is Some,
            read matches Some(text) ==> text@ == decode_utf8(old(self)@.next_chunk()->0),
            final(self)@ == old(self)@.after_chunk(),
    {
        match self.take_chunk() {
            Some(chunk) => string_from_utf8(chunk),
            None => None,
        }
    }

    /// Reads the next chunk of the body and decodes it as UTF-8.
    /// `Ok(None)` tells that the body has been read to its end, `Err` that
    /// the chunk was read and is not valid UTF-8.
    pub fn try_chunk_text(&mut self) -> (read: Result<Option<String>, Utf8Error>)
        ensures
            final(self)@ == old(self)@.after_chunk(),
            match old(self)@.next_chunk() {
                None => read == Ok::<Option<String>, Utf8Error>(None),
                Some(chunk) => if valid_utf8(chunk) {
                    read matches Ok(Some(text)) && text@ == decode_utf8(chunk)
                } else {
                    read is Err
                },
            },
    {
        match self.take_chunk() {
            Some(chunk) => match string_from_utf8(chunk) {
                Some(text) => Ok(Some(text)),
                None => Err(Utf8Error {  }),
            },
            None => Ok(None),
        }
    }

    /// The unread part of the body in one piece.
    fn unread(&self) -> (whole: Vec<u8>)
        ensures
            whole@ == self@.body(),
    {
        proof {
            use_type_invariant(self);
        }
        join(&self.chunks, self.read)
    }

    /// The unread part of the body as one buffer.
    pub fn bytes(self) -> (whole: Bytes)
        ensures
            bytes_view(whole) == self@.body(),
    {
        bytes_from_vec(self.unread())
    }

    /// The unread part of the body as text. The body has to be valid UTF-8:
    /// see `try_text` for one that may not be.
    pub fn text(self) -> (whole: String)
        requires
            valid_utf8(self@.body()),
        ensures
            whole@ == decode_utf8(self@.body()),
    {
        match string_from_utf8(self.unread()) {
            Some(text) => text,
            None => String::new(),
        }
    }

    /// The unread part of the body decoded as UTF-8, or `Err` where it is
    /// not valid UTF-8.
    pub fn try_text(self) -> (whole: Result<String, Utf8Error>)
        ensures
            whole is Ok <==> valid_utf8(self@.body()),
            whole matches Ok(text) ==> text@ == decode_utf8(self@.body()),
    {
        match string_from_utf8(self.unread()) {
            Some(text) => Ok(text),
            None => Err(Utf8Error {  }),
        }
    }
}

/// Tells that bytes taken for text are not valid UTF-8.
#[derive(Clone, Copy, Debug, PartialEq, Eq, Structural)]
pub struct Utf8Error {}

/// Reading a body chunk by chunk until none is left yields, put together,
/// the bytes that reading it in one piece yields.
pub proof fn chunks_make_up_the_body(response: ResponseView)
    ensures
        response.chunks_until_end() == response.body(),
    decreases response.chunks.len(),
{
    if response.chunks.len() > 0 {
        chunks_make_up_the_body(response.after_chunk());
    }
}

} // verus!
