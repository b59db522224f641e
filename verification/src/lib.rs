//! Transport framing and connection negotiation for a remote-desktop
//! protocol client: a binary value codec, a framing layer that splits
//! legacy enveloped frames from compact fast-path frames, and a
//! negotiation layer that agrees on a security protocol.

pub mod data;
pub mod error;
pub mod stream;
pub mod tpkt;
pub mod x224;
