//! A body that is one buffer in memory.

use vstd::prelude::*;
use bytes::Bytes;
use core::convert::Infallible;
use super::frame::{Frame, FrameView, Polled};
use super::outside::{bytes_from_string, bytes_from_vec, bytes_len, bytes_of};

verus! {

/// HTTP body held in memory. It yields what it holds as one data frame, and
/// is exhausted after that. Its view is the bytes not yet yielded.
pub struct Body {
    inner: Bytes,
}

impl View for Body {
    type V = Seq<u8>;

    closed spec fn view(&self) -> Seq<u8> {
        bytes_of(self.inner)
    }
}

impl Body {
    /// Creates new instance.
    pub fn new(inner: Bytes) -> (body: Self)
        ensures
            body@ == bytes_of(inner),
    {
        Self { inner }
    }

    /// Creates empty body.
    pub fn empty() -> (body: Self)
        ensures
            body@ == Seq::<u8>::empty(),
    {
        Self::new(Bytes::new())
    }

    /// The frames that the body has yet to yield: none when it is empty, else
    /// one data frame with all it holds.
    pub open spec fn frames(&self) -> Seq<FrameView> {
        if self@.len() == 0 {
            Seq::empty()
        } else {
            seq![FrameView::Data(self@)]
        }
    }

    /// Yields the next frame. A fixed buffer is always ready and never fails.
    pub fn poll_frame(&mut self) -> (polled: Polled<Infallible>)
        ensures
            final(self)@ == Seq::<u8>::empty(),
            old(self)@.len() == 0 ==> polled is Exhausted,
            old(self)@.len() > 0 ==> (polled matches Polled::Frame(frame) && frame@
                == FrameView::Data(old(self)@)),
    {
        if !self.inner.is_empty() {
            let mut result = Bytes::new();
            core::mem::swap(&mut self.inner, &mut result);
            Polled::Frame(Frame::Data(result))
        } else {
            Polled::Exhausted
        }
    }

    /// Whether the body has nothing more to yield.
    pub fn is_end_stream(&self) -> (ended: bool)
        ensures
            ended == (self@.len() == 0),
    {
        self.inner.is_empty()
    }

    /// The exact number of bytes that the body has yet to yield.
    pub fn size_hint(&self) -> (exact: u64)
        ensures
            exact == self@.len(),
    {
        bytes_len(&self.inner) as u64
    }
}

/// Two bodies that hold the same bytes need not be the same value, so the
/// conversion is specified by its `ensures`, not by `from_spec`.
impl vstd::std_specs::convert::FromSpecImpl<Vec<u8>> for Body {
    open spec fn obeys_from_spec() -> bool {
        false
    }

    open spec fn from_spec(buffer: Vec<u8>) -> Self {
        arbitrary()
    }
}

impl From<Vec<u8>> for Body {
    fn from(buffer: Vec<u8>) -> (body: Self)
        ensures
            body@ == buffer@,
    {
        Self::new(bytes_from_vec(buffer))
    }
}

impl vstd::std_specs::convert::FromSpecImpl<&'static str> for Body {
    open spec fn obeys_from_spec() -> bool {
        false
    }

    open spec fn from_spec(text: &'static str) -> Self {
        arbitrary()
    }
}

impl From<&'static str> for Body {
    fn from(text: &'static str) -> (body: Self)
        ensures
            body@ == vstd::utf8::encode_utf8(text@),
    {
        Self::new(Bytes::from_static(text.as_bytes()))
    }
}

impl vstd::std_specs::convert::FromSpecImpl<String> for Body {
    open spec fn obeys_from_spec() -> bool {
        false
    }

    open spec fn from_spec(text: String) -> Self {
        arbitrary()
    }
}

impl From<String> for Body {
    fn from(text: String) -> (body: Self)
        ensures
            body@ == vstd::utf8::encode_utf8(text@),
    {
        Self::new(bytes_from_string(text))
    }
}

} // verus!
