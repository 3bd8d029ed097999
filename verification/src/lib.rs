//! A verified core for a line-oriented request/reply protocol spoken with a
//! child control process: request framing, response decoding, per-channel
//! change detection with nested payload decoding, and a non-blocking line
//! queue for supervised process output.

pub mod encode;
pub mod manager;
pub mod markup;
pub mod queue;
pub mod response;
pub mod scan;
pub mod wire;
