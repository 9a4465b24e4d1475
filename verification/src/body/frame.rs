//! What a source hands to the pump.

use vstd::prelude::*;
use bytes::Bytes;
use http::HeaderMap;
use super::outside::bytes_of;

verus! {

/// One unit yielded by a streaming source.
#[derive(Debug)]
pub enum Frame {
    /// A chunk of the body.
    Data(Bytes),
    /// The trailer fields, which come after all data.
    Trailers(HeaderMap),
}

/// A frame as contracts see it: a data frame is the bytes it carries.
pub enum FrameView {
    /// A chunk of the body.
    Data(Seq<u8>),
    /// The trailer fields.
    Trailers(HeaderMap),
}

impl View for Frame {
    type V = FrameView;

    open spec fn view(&self) -> FrameView {
        match *self {
            Frame::Data(data) => FrameView::Data(bytes_of(data)),
            Frame::Trailers(headers) => FrameView::Trailers(headers),
        }
    }
}

/// What asking a source for its next frame can return.
#[derive(Debug)]
pub enum Polled<E> {
    /// The source has nothing yet; ask again when woken.
    NotReady,
    /// The source failed.
    Error(E),
    /// The next frame.
    Frame(Frame),
    /// The source has no more frames.
    Exhausted,
}

/// The bytes that the data frames among `frames` carry, in order.
pub open spec fn payload(frames: Seq<FrameView>) -> Seq<u8>
    decreases frames.len(),
{
    if frames.len() == 0 {
        Seq::empty()
    } else {
        match frames.first() {
            FrameView::Data(data) => data + payload(frames.drop_first()),
            FrameView::Trailers(_) => payload(frames.drop_first()),
        }
    }
}

/// Whether a frame carries no byte of the body: an empty chunk, or trailers.
pub open spec fn carries_nothing(frame: FrameView) -> bool {
    match frame {
        FrameView::Data(data) => data.len() == 0,
        FrameView::Trailers(_) => true,
    }
}

/// A frame that carries nothing can be put anywhere among others without
/// changing what they carry.
pub proof fn lemma_payload_without(frames: Seq<FrameView>, at: int, frame: FrameView)
    requires
        0 <= at <= frames.len(),
        carries_nothing(frame),
    ensures
        payload(frames.insert(at, frame)) == payload(frames),
    decreases at,
{
    let longer = frames.insert(at, frame);
    if at == 0 {
        assert(longer.drop_first() =~= frames);
        match frame {
            FrameView::Data(data) => {
                assert(data + payload(frames) =~= payload(frames));
            },
            FrameView::Trailers(_) => {},
        }
    } else {
        assert(longer.first() == frames.first());
        assert(longer.drop_first() =~= frames.drop_first().insert(at - 1, frame));
        lemma_payload_without(frames.drop_first(), at - 1, frame);
    }
}

} // verus!
