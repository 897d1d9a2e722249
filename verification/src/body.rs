//! Response bodies: byte buffers handed to the caller, and text decoded from
//! them.

use bytes::Bytes;
use vstd::prelude::*;
use vstd::utf8::*;

verus! {

/// `bytes::Bytes`, a shared buffer of bytes.
#[verifier::external_type_specification]
#[verifier::external_body]
pub struct ExBytes(bytes::Bytes);

/// The bytes that a buffer holds, in order: the slice that it derefs to.
pub uninterp spec fn bytes_view(buffer: Bytes) -> Seq<u8>;

/// Makes a buffer out of a vector with `Bytes::from`.
///
/// Trusted: the buffer holds the bytes of the vector, in order.
#[verifier::external_body]
pub(crate) fn bytes_from_vec(data: Vec<u8>) -> (buffer: Bytes)
    ensures
        bytes_view(buffer) == data@,
{
    Bytes::from(data)
}

/// Decodes bytes as UTF-8 with `String::from_utf8`.
///
/// Trusted: the bytes are accepted exactly when they are valid UTF-8, and
/// the text is then what they decode to.
#[verifier::external_body]
pub(crate) fn string_from_utf8(data: Vec<u8>) -> (text: Option<String>)
    ensures
        text is Some <==> valid_utf8(data@),
        text matches Some(decoded) ==> decoded@ == decode_utf8(data@),
{
    String::from_utf8(data).ok()
}

/// The bytes of each chunk of a list.
pub open spec fn chunk_seq(chunks: Seq<Vec<u8>>) -> Seq<Seq<u8>> {
    Seq::new(chunks.len(), |i: int| chunks[i]@)
}

/// Puts the chunks of a body together, in order, from the chunk at `from`
/// on.
pub(crate) fn join(chunks: &Vec<Vec<u8>>, from: usize) -> (body: Vec<u8>)
    requires
        from <= chunks.len(),
    ensures
        body@ == chunk_seq(chunks@).skip(from as int).flatten(),
{
    let ghost rest = chunk_seq(chunks@).skip(from as int);
    let mut body: Vec<u8> = Vec::new();
    let mut i: usize = from;
    assert(rest.take(0) =~= Seq::<Seq<u8>>::empty());
    while i < chunks.len()
        invariant
            from <= i <= chunks.len(),
            rest == chunk_seq(chunks@).skip(from as int),
            body@ == rest.take(i - from).flatten(),
        decreases chunks.len() - i,
    {
        let ghost before = body@;
        body.extend_from_slice(chunks[i].as_slice());
        proof {
            let chunk = rest[i - from];
            assert(chunk == chunks[i as int]@);
            assert(body@ =~= before + chunk);
            rest.take(i - from).lemma_flatten_push(chunk);
            assert(rest.take(i - from + 1) =~= rest.take(i - from).push(chunk));
        }
        i += 1;
    }
    proof {
        assert(rest.take(i - from) =~= rest);
    }
    body
}

} // verus!
