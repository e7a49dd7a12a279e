//! A binary-segment annotation and hex-dump rendering engine.
//!
//! Given a byte buffer, a caller incrementally describes a recursive
//! decomposition of the buffer into labeled, typed, colored ranges, then
//! renders the whole buffer as an aligned, colorized hex dump in which each
//! range's bytes are decoded according to its declared type.

pub mod builder;
pub mod ext;
pub mod laws;
pub mod numfmt;
pub mod printer;
pub mod render;
pub mod seg;

pub use builder::StyleBuilder;
pub use printer::TermPrinter;
pub use seg::Color;
pub use seg::Segment;
pub use seg::SegmentKind;
pub use seg::Ty;
