//! Framing, sequencing and connection bookkeeping for a TCP tunnel that
//! carries every frame over two redundant links at once.

pub mod arguments;
pub mod counter;
pub mod frame;
pub mod link;
pub mod outbound;
pub mod relay;
pub mod sequence;
pub mod table;
