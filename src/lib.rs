pub mod filter;
pub mod ring_buffer;

pub use filter::{FilterParam, FilterType};
pub use ring_buffer::{RingBuffer, RingModel};
