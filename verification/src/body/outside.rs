//! What this library takes on trust from the crates it is built on.
//!
//! Every contract in this file is believed, not proved. Each one names the
//! function it speaks of and says what is claimed of it.

use vstd::prelude::*;
use std::io::Write;

verus! {

/// `bytes::Bytes`, a cheaply cloneable slice of memory. Opaque here: what it
/// holds is spoken of through [`bytes_of`].
#[verifier::external_type_specification]
#[verifier::external_body]
pub struct ExBytes(bytes::Bytes);

/// The bytes that a `bytes::Bytes` holds, first to last.
pub uninterp spec fn bytes_of(data: bytes::Bytes) -> Seq<u8>;

/// `Bytes::new` gives a buffer that holds nothing.
pub assume_specification[ bytes::Bytes::new ]() -> (data: bytes::Bytes)
    ensures
        bytes_of(data) == Seq::<u8>::empty(),
;

/// `Bytes::len` counts the bytes held.
#[verifier::external_body]
pub(crate) fn bytes_len(data: &bytes::Bytes) -> (n: usize)
    ensures
        n == bytes_of(*data).len(),
{
    data.len()
}

/// `Bytes::is_empty` tells whether no byte is held.
pub assume_specification[ bytes::Bytes::is_empty ](data: &bytes::Bytes) -> (empty: bool)
    ensures
        empty == (bytes_of(*data).len() == 0),
;

/// `Bytes::as_ref` lends the bytes held as a slice.
#[verifier::external_body]
pub(crate) fn bytes_as_slice(data: &bytes::Bytes) -> (slice: &[u8])
    ensures
        slice@ == bytes_of(*data),
{
    data.as_ref()
}

/// `Bytes::from_static` holds the bytes of the slice it is given.
pub assume_specification[ bytes::Bytes::from_static ](bytes: &'static [u8]) -> (data: bytes::Bytes)
    ensures
        bytes_of(data) == bytes@,
;

/// `Bytes::from` a vector holds the bytes of the vector.
#[verifier::external_body]
pub(crate) fn bytes_from_vec(buffer: Vec<u8>) -> (data: bytes::Bytes)
    ensures
        bytes_of(data) == buffer@,
{
    bytes::Bytes::from(buffer)
}

/// `Bytes::from` a string holds the bytes of the string, which are the
/// UTF-8 encoding of its characters.
#[verifier::external_body]
pub(crate) fn bytes_from_string(text: String) -> (data: bytes::Bytes)
    ensures
        bytes_of(data) == vstd::utf8::encode_utf8(text@),
{
    bytes::Bytes::from(text)
}

/// `http::HeaderMap`, the trailer fields of a body. Opaque here: the
/// library hands it on and never looks inside.
#[verifier::external_type_specification]
#[verifier::external_body]
#[verifier::reject_recursive_types(T)]
pub struct ExHeaderMap<T>(http::HeaderMap<T>);

/// `http::HeaderValue`, the value of one header field, which the header map
/// holds when nothing else is said. Opaque here.
#[verifier::external_type_specification]
#[verifier::external_body]
pub struct ExHeaderValue(http::HeaderValue);

/// `std::io::Error`, the cause that the decoder reports. Opaque here.
#[verifier::external_type_specification]
#[verifier::external_body]
pub struct ExIoError(std::io::Error);

/// A live `zstd::stream::write::Decoder` that writes what it decodes into a
/// vector of its own. The decoder's type is bounded by `std::io::Write`,
/// which Verus does not know, so it is held in a struct that Verus does not
/// look into. It is spoken of through [`decoder_input`] and
/// [`decoder_output`].
#[verifier::external_body]
pub struct ZstdDecoder {
    inner: zstd::stream::write::Decoder<'static, Vec<u8>>,
}

/// The bytes that a decoder has taken in since it was made, first to last.
pub uninterp spec fn decoder_input(decoder: ZstdDecoder) -> Seq<u8>;

/// `Decoder::new` on an empty vector: a decoder that has taken in nothing.
/// Where no memory can be had for the decoder the call panics, as running
/// out of memory does elsewhere.
#[verifier::external_body]
pub(crate) fn decoder_new() -> (made: Result<ZstdDecoder, std::io::Error>)
    ensures
        made matches Ok(decoder) ==> decoder_input(decoder) == Seq::<u8>::empty(),
{
    match zstd::stream::write::Decoder::new(Vec::new()) {
        Ok(inner) => Ok(ZstdDecoder { inner }),
        Err(error) => Err(error),
    }
}

/// The bytes that a decoder has written into its vector so far.
pub uninterp spec fn decoder_output(decoder: ZstdDecoder) -> Seq<u8>;

/// What a decoder that has taken in `input`, and was flushed since, has
/// written in all: the decoded form of `input`. It depends on the bytes
/// alone, not on the pieces in which they came.
pub uninterp spec fn zstd_decoded(input: Seq<u8>) -> Seq<u8>;

/// `Write::write_all` on the decoder: when it returns `Ok`, the decoder has
/// taken in all of `data` after what it had. Nothing is claimed of a decoder
/// that reported an error.
#[verifier::external_body]
pub(crate) fn decoder_write_all(decoder: &mut ZstdDecoder, data: &[u8]) -> (fed: Result<
    (),
    std::io::Error,
>)
    ensures
        fed is Ok ==> decoder_input(*final(decoder)) == decoder_input(*old(decoder)) + data@,
{
    decoder.inner.write_all(data)
}

/// `Write::flush` on the decoder: when it returns `Ok`, the decoder's vector
/// holds the whole decoded form of what the decoder took in.
#[verifier::external_body]
pub(crate) fn decoder_flush(decoder: &mut ZstdDecoder) -> (flushed: Result<(), std::io::Error>)
    ensures
        flushed is Ok ==> decoder_output(*final(decoder)) == zstd_decoded(
            decoder_input(*old(decoder)),
        ),
{
    decoder.inner.flush()
}

/// `Decoder::into_inner` hands out the vector that the decoder wrote into.
#[verifier::external_body]
pub(crate) fn decoder_into_inner(decoder: ZstdDecoder) -> (output: Vec<u8>)
    ensures
        output@ == decoder_output(decoder),
{
    decoder.inner.into_inner()
}

} // verus!
