//! Protocol engine of a small binary upload receiver: frame decoding, the
//! per-connection transfer mode, the payload transforms and the responses.

pub mod frame;
pub mod dispatch;
pub mod text;
pub mod transform;
