//! Wire codec, capture queue and host-side stream handling for an
//! edge-capture device that timestamps level changes on its input channels.

pub mod capture;
pub mod cdc;
pub mod channels;
pub mod claim;
pub mod data;
pub mod error;
pub mod frame;
pub mod messages;
pub mod round_trip;
pub mod session;
pub mod status;
pub mod stopwatch;
pub mod stream;
pub mod util;

pub use crate::data::Message;
