//! The pump: it moves frames from a source into a sink under a byte limit.

use vstd::prelude::*;
use core::convert::Infallible;
use super::buffer::Body;
use super::frame::{carries_nothing, lemma_payload_without, payload, Frame, FrameView, Polled};
use super::outside::{bytes_len, bytes_of};
use super::sink::Collector;

verus! {

/// Possible errors from [`Collect`].
#[derive(Debug)]
pub enum CollectError<T, C> {
    /// Underlying error from the source.
    Transport(T),
    /// Error accumulating body.
    Collector(C),
    /// Body is over limit.
    Overflow,
}

impl<T, C> CollectError<T, C> {
    /// Wraps an error of the sink.
    pub fn unlikely_collector(error: C) -> (wrapped: Self)
        ensures
            wrapped == CollectError::<T, C>::Collector(error),
    {
        Self::Collector(error)
    }
}

/// What the pump does after it has dealt with one answer of the source.
#[derive(Debug)]
pub enum Step<R> {
    /// Ask the source for the next frame.
    Continue,
    /// The source is not ready: give way until woken, then ask again.
    Suspend,
    /// The aggregation is over, with this result.
    Done(R),
}

/// Collects the frames of a source into a sink.
///
/// ## Arguments
///
/// - `S` - size limit in bytes; a chunk that would take the sink over it
///   ends the aggregation with [`CollectError::Overflow`]
/// - `T` - the source
/// - `C` - the sink, which implements [`Collector`]
pub struct Collect<const S: usize, T, C> {
    body: T,
    collector: C,
}

impl<const S: usize, T, C> Collect<S, T, C> {
    /// The source.
    pub closed spec fn body(&self) -> T {
        self.body
    }

    /// The sink.
    pub closed spec fn collector(&self) -> C {
        self.collector
    }

    /// Creates new instance.
    pub fn new(body: T, collector: C) -> (pump: Self)
        ensures
            pump.body() == body,
            pump.collector() == collector,
    {
        Self { body, collector }
    }

    /// Lends the source, to ask it for its next frame.
    pub fn body_mut(&mut self) -> (body: &mut T)
        ensures
            *body == old(self).body(),
            final(self).body() == *final(body),
            final(self).collector() == old(self).collector(),
    {
        &mut self.body
    }
}

impl<const S: usize, T, C: Collector> Collect<S, T, C> {
    /// Deals with one answer of the source.
    ///
    /// An empty chunk is skipped. Any other chunk is checked against the
    /// limit before the sink sees it: where the sink would then hold more
    /// than `S` bytes, the aggregation ends with `Overflow` and the sink is
    /// left as it was. Trailers go to the sink's hook and count for nothing.
    /// When the source is exhausted the sink is finalized. The first error
    /// ends the aggregation.
    pub fn advance<E>(&mut self, polled: Polled<E>) -> (step: Step<
        Result<C::Output, CollectError<E, C::Error>>,
    >)
        ensures
            final(self).body() == old(self).body(),
            C::obeys_model() ==> (polled matches Polled::Frame(frame) ==> match after_frame(
                S as nat,
                old(self).collector().absorbed(),
                frame@,
            ) {
                Some(next) => step is Continue ==> final(self).collector().absorbed() == next,
                None => step matches Step::Done(Err(CollectError::Overflow)),
            }),
            ({
                let before = old(self).collector();
                let after = final(self).collector();
                let held = before.absorbed();
                match polled {
                    Polled::NotReady => step is Suspend && after == before,
                    Polled::Error(error) => after == before && step == Step::Done(
                        Err::<C::Output, _>(CollectError::<E, C::Error>::Transport(error)),
                    ),
                    Polled::Frame(Frame::Data(data)) => if bytes_of(data).len() == 0 {
                        step is Continue && after == before
                    } else if !C::obeys_model() {
                        match step {
                            Step::Continue => true,
                            Step::Done(Err(CollectError::Overflow)) => after == before,
                            Step::Done(Err(CollectError::Collector(_))) => true,
                            _ => false,
                        }
                    } else if held.len() + bytes_of(data).len() > S {
                        after == before && step == Step::Done(
                            Err::<C::Output, _>(CollectError::<E, C::Error>::Overflow),
                        )
                    } else {
                        match step {
                            Step::Continue => after.absorbed() == held + bytes_of(data),
                            Step::Done(Err(CollectError::Collector(_))) => !C::accepts(
                                held,
                                bytes_of(data),
                            ),
                            _ => false,
                        }
                    },
                    Polled::Frame(Frame::Trailers(headers)) => step is Continue && before.told(
                        headers,
                        &after,
                    ) && (C::obeys_model() ==> after.absorbed() == held),
                    Polled::Exhausted => match step {
                        Step::Done(Ok(output)) => C::obeys_model() ==> C::yields(
                            held,
                            Ok(output),
                        ),
                        Step::Done(Err(CollectError::Collector(error))) => C::obeys_model()
                            ==> C::yields(held, Err(error)),
                        _ => false,
                    },
                }
            }),
    {
        match polled {
            Polled::NotReady => Step::Suspend,
            Polled::Error(error) => Step::Done(Err(CollectError::Transport(error))),
            Polled::Frame(Frame::Data(data)) => {
                let size = bytes_len(&data);
                if size == 0 {
                    Step::Continue
                } else {
                    let within = match self.collector.len().checked_add(size) {
                        Some(total) => total <= S,
                        None => false,
                    };
                    if within {
                        match self.collector.append(data) {
                            Some(error) => Step::Done(
                                Err(CollectError::unlikely_collector(error)),
                            ),
                            None => Step::Continue,
                        }
                    } else {
                        Step::Done(Err(CollectError::Overflow))
                    }
                }
            },
            Polled::Frame(Frame::Trailers(headers)) => {
                self.collector.on_trailers(headers);
                Step::Continue
            },
            Polled::Exhausted => match self.collector.consume() {
                Ok(result) => Step::Done(Ok(result)),
                Err(error) => Step::Done(Err(CollectError::unlikely_collector(error))),
            },
        }
    }
}

/// What a sink that holds `held` and never refuses a chunk holds once a
/// pump with limit `limit` has dealt with `frame`, as [`Collect::advance`]
/// does; `None` where the frame overflows the limit.
pub open spec fn after_frame(limit: nat, held: Seq<u8>, frame: FrameView) -> Option<Seq<u8>> {
    match frame {
        FrameView::Data(data) => if data.len() == 0 {
            Some(held)
        } else if held.len() + data.len() > limit {
            None
        } else {
            Some(held + data)
        },
        FrameView::Trailers(_) => Some(held),
    }
}

/// What such a sink holds when the pump has been through `frames`, one
/// after the other, and finds the source exhausted; `None` where a chunk
/// overflows the limit on the way, which ends the aggregation.
pub open spec fn aggregate(limit: nat, held: Seq<u8>, frames: Seq<FrameView>) -> Option<Seq<u8>>
    decreases frames.len(),
{
    if frames.len() == 0 {
        Some(held)
    } else {
        match after_frame(limit, held, frames.first()) {
            Some(next) => aggregate(limit, next, frames.drop_first()),
            None => None,
        }
    }
}

/// An aggregation can be taken in two parts: the second part starts from
/// what the first has put into the sink, and an overflow in the first part
/// ends it all.
pub proof fn lemma_aggregate_in_parts(
    limit: nat,
    held: Seq<u8>,
    first: Seq<FrameView>,
    second: Seq<FrameView>,
)
    ensures
        aggregate(limit, held, first + second) == match aggregate(limit, held, first) {
            Some(between) => aggregate(limit, between, second),
            None => None,
        },
    decreases first.len(),
{
    if first.len() == 0 {
        assert(first + second =~= second);
    } else {
        assert((first + second).first() == first.first());
        assert((first + second).drop_first() =~= first.drop_first() + second);
        match after_frame(limit, held, first.first()) {
            Some(next) => {
                lemma_aggregate_in_parts(limit, next, first.drop_first(), second);
            },
            None => {},
        }
    }
}

/// The aggregation in one formula: it overflows exactly when the frames
/// carry something and the sink would end up over the limit; otherwise the
/// sink ends up with what it held followed by what the frames carry.
pub proof fn lemma_aggregate(limit: nat, held: Seq<u8>, frames: Seq<FrameView>)
    ensures
        aggregate(limit, held, frames) == if payload(frames).len() == 0 || held.len() + payload(
            frames,
        ).len() <= limit {
            Some(held + payload(frames))
        } else {
            None
        },
    decreases frames.len(),
{
    if frames.len() == 0 {
        assert(held + payload(frames) =~= held);
    } else {
        let rest = frames.drop_first();
        match frames.first() {
            FrameView::Data(data) => {
                if data.len() == 0 {
                    lemma_aggregate(limit, held, rest);
                    assert(payload(frames) =~= payload(rest));
                } else if held.len() + data.len() <= limit {
                    lemma_aggregate(limit, held + data, rest);
                    assert((held + data) + payload(rest) =~= held + payload(frames));
                }
            },
            FrameView::Trailers(_) => {
                lemma_aggregate(limit, held, rest);
            },
        }
    }
}

/// An aggregation into an empty sink succeeds exactly when the frames carry
/// no more than the limit.
pub proof fn lemma_succeeds_iff_within_limit(limit: nat, frames: Seq<FrameView>)
    ensures
        aggregate(limit, Seq::empty(), frames) is Some <==> payload(frames).len() <= limit,
{
    lemma_aggregate(limit, Seq::empty(), frames);
}

/// An aggregation into an empty sink that succeeds has put into the sink
/// exactly the chunks, in order.
pub proof fn lemma_output_is_payload(limit: nat, frames: Seq<FrameView>)
    ensures
        aggregate(limit, Seq::empty(), frames) matches Some(output) ==> output == payload(frames),
{
    lemma_aggregate(limit, Seq::empty(), frames);
    assert(Seq::<u8>::empty() + payload(frames) =~= payload(frames));
}

/// A sink that is within the limit stays within it: whatever the frames,
/// an aggregation that does not overflow never leaves the sink with more
/// than the limit.
pub proof fn lemma_sink_stays_within_limit(limit: nat, held: Seq<u8>, frames: Seq<FrameView>)
    requires
        held.len() <= limit,
    ensures
        aggregate(limit, held, frames) matches Some(total) ==> total.len() <= limit,
{
    lemma_aggregate(limit, held, frames);
}

/// Empty chunks and trailers, wherever they stand among the frames, change
/// neither what the sink ends up with nor whether the limit is overflowed.
pub proof fn lemma_neutral_frame(
    limit: nat,
    held: Seq<u8>,
    frames: Seq<FrameView>,
    at: int,
    frame: FrameView,
)
    requires
        0 <= at <= frames.len(),
        carries_nothing(frame),
    ensures
        aggregate(limit, held, frames.insert(at, frame)) == aggregate(limit, held, frames),
{
    lemma_payload_without(frames, at, frame);
    lemma_aggregate(limit, held, frames);
    lemma_aggregate(limit, held, frames.insert(at, frame));
}

impl<const S: usize, C: Collector> Collect<S, Body, C> {
    /// Runs the aggregation of a body held in memory to its end. Such a body
    /// is always ready, so there is nothing to wait for.
    ///
    /// The outcome is that of [`aggregate`] on the frames of the body, but
    /// for what the sink decides: it may refuse the chunk, and it makes the
    /// output.
    pub fn poll(&mut self) -> (result: Result<C::Output, CollectError<Infallible, C::Error>>)
        ensures
            final(self).body()@ == Seq::<u8>::empty(),
            !(result matches Err(CollectError::Transport(_))),
            C::obeys_model() ==> ({
                let held = old(self).collector().absorbed();
                let chunk = old(self).body()@;
                match aggregate(S as nat, held, old(self).body().frames()) {
                    None => final(self).collector() == old(self).collector() && result == Err::<
                        C::Output,
                        _,
                    >(CollectError::<Infallible, C::Error>::Overflow),
                    Some(total) => match result {
                        Ok(output) => C::yields(total, Ok(output)),
                        Err(CollectError::Collector(error)) => C::yields(total, Err(error))
                            || (chunk.len() > 0 && !C::accepts(held, chunk)),
                        Err(_) => false,
                    },
                }
            }),
    {
        loop
            invariant
                self.body()@.len() > 0 ==> *self == *old(self),
                C::obeys_model() && self.body()@.len() == 0 ==> aggregate(
                    S as nat,
                    old(self).collector().absorbed(),
                    old(self).body().frames(),
                ) == Some(self.collector().absorbed()),
            decreases self.body()@.len(),
        {
            proof {
                let frames = old(self).body().frames();
                reveal_with_fuel(aggregate, 2);
                if frames.len() > 0 {
                    assert(frames.drop_first() =~= Seq::empty());
                }
            }
            let polled = self.body.poll_frame();
            match self.advance(polled) {
                Step::Continue => {},
                Step::Suspend => {
                    proof {
                        assert(false);
                    }
                    return unreached();
                },
                Step::Done(result) => {
                    return result;
                },
            }
        }
    }
}

} // verus!
