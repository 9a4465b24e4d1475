//! The sink contract, and the plain accumulating sink.

use vstd::prelude::*;
use bytes::Bytes;
use http::HeaderMap;
use core::convert::Infallible;
use super::outside::{bytes_as_slice, bytes_of};

verus! {

/// A sink that the pump fills: it absorbs chunks in order, is told of
/// trailers, and is finalized once into its output.
///
/// The model of a sink is the sequence of bytes it has absorbed. A sink
/// that keeps to this model says so in [`Collector::obeys_model`], and the
/// contracts below then hold it to that. The predicates after it let the
/// sink publish what it promises beyond the model: which chunks it is
/// certain to take, what trailers do to it, and what may come out at the
/// end. A sink that states none of this promises nothing, and nothing is
/// assumed of it.
pub trait Collector {
    /// Final result type.
    type Output;

    /// Potential error. A sink that cannot fail uses `Infallible`.
    type Error;

    /// Whether [`Collector::absorbed`] says what the sink has taken in.
    open spec fn obeys_model() -> bool {
        false
    }

    /// The bytes absorbed so far, first to last.
    open spec fn absorbed(&self) -> Seq<u8> {
        Seq::empty()
    }

    /// Whether a sink that has absorbed `absorbed` is certain to take `data`.
    open spec fn accepts(absorbed: Seq<u8>, data: Seq<u8>) -> bool {
        false
    }

    /// Whether `result` may come out of finalizing a sink that has absorbed
    /// `absorbed`.
    open spec fn yields(absorbed: Seq<u8>, result: Result<Self::Output, Self::Error>) -> bool {
        true
    }

    /// Whether a sink in state `self` may be in state `after` once it was
    /// told of the trailers `headers`.
    open spec fn told(&self, headers: HeaderMap, after: &Self) -> bool {
        true
    }

    /// Appends `data`, returning `Some(error)` if that is impossible. After an
    /// error nothing is known of the sink.
    fn append(&mut self, data: Bytes) -> (error: Option<Self::Error>)
        requires
            Self::obeys_model() ==> old(self).absorbed().len() + bytes_of(data).len()
                <= usize::MAX,
        ensures
            Self::obeys_model() && error is None ==> final(self).absorbed() == old(
                self,
            ).absorbed() + bytes_of(data),
            Self::obeys_model() && Self::accepts(old(self).absorbed(), bytes_of(data))
                ==> error is None,
    ;

    /// Returns the number of bytes absorbed so far.
    fn len(&self) -> (n: usize)
        ensures
            Self::obeys_model() ==> n == self.absorbed().len(),
    ;

    /// Called for each trailer frame. Trailers never count as absorbed bytes.
    fn on_trailers(&mut self, headers: HeaderMap)
        ensures
            Self::obeys_model() ==> final(self).absorbed() == old(self).absorbed(),
            old(self).told(headers, final(self)),
    ;

    /// Finalizes the sink, returning what it accumulated.
    ///
    /// The pump calls this once, when the source is exhausted.
    fn consume(&mut self) -> (result: Result<Self::Output, Self::Error>)
        ensures
            Self::obeys_model() ==> Self::yields(old(self).absorbed(), result),
    ;
}

/// The plain sink: every chunk is appended to the vector as it is, and
/// finalizing hands the vector out, leaving an empty one behind.
impl Collector for Vec<u8> {
    type Output = Vec<u8>;

    type Error = Infallible;

    open spec fn obeys_model() -> bool {
        true
    }

    open spec fn absorbed(&self) -> Seq<u8> {
        self@
    }

    open spec fn accepts(absorbed: Seq<u8>, data: Seq<u8>) -> bool {
        true
    }

    open spec fn yields(absorbed: Seq<u8>, result: Result<Vec<u8>, Infallible>) -> bool {
        result matches Ok(output) && output@ == absorbed
    }

    /// The plain sink does nothing with trailers.
    open spec fn told(&self, headers: HeaderMap, after: &Self) -> bool {
        *after == *self
    }

    fn append(&mut self, data: Bytes) -> (error: Option<Infallible>) {
        self.extend_from_slice(bytes_as_slice(&data));
        None
    }

    fn len(&self) -> (n: usize) {
        Vec::len(self)
    }

    fn on_trailers(&mut self, headers: HeaderMap) {
    }

    fn consume(&mut self) -> (result: Result<Vec<u8>, Infallible>)
        ensures
            result matches Ok(output) && output@ == old(self)@,
            final(self)@ == Seq::<u8>::empty(),
    {
        let mut result = Vec::new();
        core::mem::swap(&mut result, self);
        Ok(result)
    }
}

} // verus!
