//! The decompressing sink: it sniffs the first bytes for the zstd signature
//! and either passes the data through or decodes it as it arrives.

use vstd::prelude::*;
use bytes::Bytes;
use http::HeaderMap;
use super::outside::{
    bytes_as_slice, bytes_of, decoder_flush, decoder_input, decoder_into_inner, decoder_new,
    decoder_output, decoder_write_all, zstd_decoded, ZstdDecoder,
};
use super::sink::Collector;

verus! {

/// The signature that opens every zstd frame, as a number. On the wire it
/// stands in little-endian order: see [`ZSTD_HEADER`].
pub const ZSTD_MAGIC: u32 = 0xFD2FB528;

/// The four bytes that open every zstd frame.
pub const ZSTD_HEADER: [u8; 4] = [0x28, 0xB5, 0x2F, 0xFD];

/// Whether `bytes` opens with the zstd signature. Shorter input never does.
pub open spec fn is_zstd(bytes: Seq<u8>) -> bool {
    bytes.len() >= 4 && bytes.take(4) == ZSTD_HEADER@
}

/// The header is the little-endian encoding of the signature.
pub proof fn lemma_header_encodes_magic()
    ensures
        ZSTD_HEADER@.len() == 4,
        ZSTD_HEADER@[0] + ZSTD_HEADER@[1] * 0x100 + ZSTD_HEADER@[2] * 0x1_0000 + ZSTD_HEADER@[3]
            * 0x100_0000 == ZSTD_MAGIC,
{
}

/// Whether input opens with the signature is settled by its first four
/// bytes: more input never changes it.
pub proof fn lemma_sniff_is_final(head: Seq<u8>, tail: Seq<u8>)
    requires
        head.len() >= 4,
    ensures
        is_zstd(head + tail) == is_zstd(head),
{
    assert((head + tail).take(4) =~= head.take(4));
}

/// Decompression error.
#[derive(Debug)]
pub enum DecompressError {
    /// The zstd decoder could not be made, fed or flushed.
    Zstd(std::io::Error),
}

enum DecompressState {
    /// Fewer bytes than the header has came in: they wait here.
    Uninit(Vec<u8>),
    /// The input did not open with the header: it is kept as it comes.
    Plain(Vec<u8>),
    /// The input opened with the header: the decoder has taken in all of
    /// it, and the number counts the bytes it took.
    Zstd(ZstdDecoder, usize),
}

/// Smart body collector, that automatically de-compresses if it detects
/// compression applied.
///
/// Supported algorithms:
/// - `zstd`
pub struct DecompressCollector {
    state: DecompressState,
}

fn has_header(buffer: &Vec<u8>) -> (found: bool)
    ensures
        found == is_zstd(buffer@),
{
    let found = buffer.len() >= 4 && buffer[0] == ZSTD_HEADER[0] && buffer[1] == ZSTD_HEADER[1]
        && buffer[2] == ZSTD_HEADER[2] && buffer[3] == ZSTD_HEADER[3];
    proof {
        if buffer@.len() >= 4 {
            let head = buffer@.take(4);
            if found {
                assert(head =~= ZSTD_HEADER@);
            } else {
                assert(head[0] == buffer@[0] && head[1] == buffer@[1] && head[2] == buffer@[2]
                    && head[3] == buffer@[3]);
            }
        }
    }
    found
}

impl DecompressCollector {
    /// What the state machine keeps: the sink is undecided exactly while fewer
    /// than four bytes came in, and after that it is decoding exactly when
    /// the input opened with the signature.
    #[verifier::type_invariant]
    spec fn inv(self) -> bool {
        match self.state {
            DecompressState::Uninit(buffer) => buffer@.len() < 4,
            DecompressState::Plain(buffer) => buffer@.len() >= 4 && !is_zstd(buffer@),
            DecompressState::Zstd(decoder, taken) => is_zstd(decoder_input(decoder)) && taken
                == decoder_input(decoder).len(),
        }
    }

    /// Takes up `decoder` after it was fed, with the decoder's answer `fed`:
    /// on success the sink goes on decoding with it, on failure the cause
    /// comes back wrapped and the decoder is dropped.
    fn resume(
        &mut self,
        decoder: ZstdDecoder,
        taken: usize,
        fed: Result<(), std::io::Error>,
    ) -> (error: Option<DecompressError>)
        requires
            fed is Ok ==> is_zstd(decoder_input(decoder)) && taken == decoder_input(decoder).len(),
        ensures
            match fed {
                Ok(_) => error is None && final(self).absorbed() == decoder_input(decoder),
                Err(cause) => error == Some(DecompressError::Zstd(cause)) && *final(self) == *old(
                    self,
                ),
            },
    {
        match fed {
            Ok(()) => {
                self.state = DecompressState::Zstd(decoder, taken);
                None
            },
            Err(cause) => Some(DecompressError::Zstd(cause)),
        }
    }

    /// What finalizing returns once the decoder was flushed, with the
    /// decoder's answer `flushed`: on success what the decoder wrote, on
    /// failure the cause, wrapped.
    pub fn finish(decoder: ZstdDecoder, flushed: Result<(), std::io::Error>) -> (result: Result<
        Vec<u8>,
        DecompressError,
    >)
        ensures
            match flushed {
                Ok(_) => result matches Ok(output) && output@ == decoder_output(decoder),
                Err(cause) => result == Err::<Vec<u8>, _>(DecompressError::Zstd(cause)),
            },
    {
        match flushed {
            Ok(()) => Ok(decoder_into_inner(decoder)),
            Err(cause) => Err(DecompressError::Zstd(cause)),
        }
    }

    /// Creates new instance, which has absorbed nothing.
    pub fn new() -> (sink: Self)
        ensures
            sink.absorbed() == Seq::<u8>::empty(),
    {
        Self { state: DecompressState::Uninit(Vec::new()) }
    }
}

impl Collector for DecompressCollector {
    type Output = Vec<u8>;

    type Error = DecompressError;

    open spec fn obeys_model() -> bool {
        true
    }

    closed spec fn absorbed(&self) -> Seq<u8> {
        match self.state {
            DecompressState::Uninit(buffer) => buffer@,
            DecompressState::Plain(buffer) => buffer@,
            DecompressState::Zstd(decoder, _) => decoder_input(decoder),
        }
    }

    /// Data that is not a zstd stream is always taken. Whether compressed
    /// data is taken is for the decoder to say.
    open spec fn accepts(absorbed: Seq<u8>, data: Seq<u8>) -> bool {
        !is_zstd(absorbed + data)
    }

    /// Plain input comes out as it went in. Of a zstd stream either its
    /// decoded form comes out, or the decoder's error.
    open spec fn yields(absorbed: Seq<u8>, result: Result<Vec<u8>, DecompressError>) -> bool {
        if is_zstd(absorbed) {
            result matches Ok(output) ==> output@ == zstd_decoded(absorbed)
        } else {
            result matches Ok(output) && output@ == absorbed
        }
    }

    /// The decompressing sink does nothing with trailers.
    open spec fn told(&self, headers: HeaderMap, after: &Self) -> bool {
        *after == *self
    }

    /// A sink that reports an error has dropped what it held and is as new.
    fn append(&mut self, data: Bytes) -> (error: Option<DecompressError>)
        ensures
            error is Some ==> final(self).absorbed() == Seq::<u8>::empty(),
    {
        proof {
            use_type_invariant(&*self);
        }
        let chunk = bytes_as_slice(&data);
        let mut state = DecompressState::Uninit(Vec::new());
        core::mem::swap(&mut state, &mut self.state);
        match state {
            DecompressState::Uninit(mut buffer) => {
                let ghost held = buffer@;
                buffer.extend_from_slice(chunk);
                assert(buffer@ =~= held + chunk@);
                if buffer.len() < 4 {
                    self.state = DecompressState::Uninit(buffer);
                    None
                } else if has_header(&buffer) {
                    match decoder_new() {
                        Ok(mut decoder) => {
                            let fed = decoder_write_all(&mut decoder, buffer.as_slice());
                            assert(fed is Ok ==> decoder_input(decoder) =~= buffer@);
                            self.resume(decoder, buffer.len(), fed)
                        },
                        Err(cause) => Some(DecompressError::Zstd(cause)),
                    }
                } else {
                    self.state = DecompressState::Plain(buffer);
                    None
                }
            },
            DecompressState::Plain(mut buffer) => {
                let ghost held = buffer@;
                buffer.extend_from_slice(chunk);
                proof {
                    assert(buffer@ =~= held + chunk@);
                    lemma_sniff_is_final(held, chunk@);
                }
                self.state = DecompressState::Plain(buffer);
                None
            },
            DecompressState::Zstd(mut decoder, taken) => {
                proof {
                    lemma_sniff_is_final(decoder_input(decoder), chunk@);
                }
                let fed = decoder_write_all(&mut decoder, chunk);
                self.resume(decoder, taken + chunk.len(), fed)
            },
        }
    }

    fn len(&self) -> (n: usize) {
        proof {
            use_type_invariant(self);
        }
        match &self.state {
            DecompressState::Uninit(buffer) => buffer.len(),
            DecompressState::Plain(buffer) => buffer.len(),
            DecompressState::Zstd(_, taken) => *taken,
        }
    }

    fn on_trailers(&mut self, headers: HeaderMap) {
    }

    /// Finalizing leaves a sink that has absorbed nothing: a second call
    /// returns an empty output.
    fn consume(&mut self) -> (result: Result<Vec<u8>, DecompressError>)
        ensures
            final(self).absorbed() == Seq::<u8>::empty(),
    {
        proof {
            use_type_invariant(&*self);
        }
        let mut state = DecompressState::Uninit(Vec::new());
        core::mem::swap(&mut state, &mut self.state);
        match state {
            DecompressState::Uninit(result) => Ok(result),
            DecompressState::Plain(result) => Ok(result),
            DecompressState::Zstd(mut decoder, _) => {
                let flushed = decoder_flush(&mut decoder);
                Self::finish(decoder, flushed)
            },
        }
    }
}

/// Plain input passes through unchanged. While what has come in does not
/// open with the signature, which holds of all input shorter than it, every
/// chunk is taken, and finalizing returns exactly the bytes that came in, in
/// order. What came in before a chunk is then plain too, so this holds chunk
/// after chunk, however the input is split.
pub proof fn lemma_plain_passes_through(
    absorbed: Seq<u8>,
    data: Seq<u8>,
    result: Result<Vec<u8>, DecompressError>,
)
    requires
        !is_zstd(absorbed + data),
    ensures
        !is_zstd(absorbed),
        DecompressCollector::accepts(absorbed, data),
        DecompressCollector::yields(absorbed + data, result) ==> (result matches Ok(output)
            && output@ == absorbed + data),
{
    if absorbed.len() >= 4 {
        lemma_sniff_is_final(absorbed, data);
    }
}

/// What comes out of a zstd stream depends on the bytes that came in alone,
/// not on how they were split into chunks: two sinks that have absorbed the
/// same bytes and are both finalized with success return the same output.
pub proof fn lemma_split_does_not_matter(
    absorbed: Seq<u8>,
    one: Result<Vec<u8>, DecompressError>,
    other: Result<Vec<u8>, DecompressError>,
)
    requires
        DecompressCollector::yields(absorbed, one),
        DecompressCollector::yields(absorbed, other),
    ensures
        one matches Ok(left) ==> (other matches Ok(right) ==> left@ == right@),
{
}

} // verus!
