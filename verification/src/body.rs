//! HTTP body utilities: a size-bounded pump from a frame source into a sink.

pub mod buffer;
pub mod collect;
pub mod decompress;
pub mod frame;
pub mod outside;
pub mod sink;

pub use buffer::Body;
pub use collect::{Collect, CollectError, Step};
pub use decompress::{DecompressCollector, DecompressError};
pub use frame::{Frame, FrameView, Polled};
pub use sink::Collector;
