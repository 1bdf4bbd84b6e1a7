//! Message dispatch and admission pipeline for a bridged consensus network.
//!
//! The crate models the security boundary of a chain-to-chain bridge: an
//! inbound opaque blob is decoded into a universal destination and a versioned
//! program, the destination is checked against the local network identity, the
//! remote sender is converted into a local execution origin, and an admission
//! policy decides whether the program may execute at all. The symmetric
//! outbound path packages a local program for a named lane toward the bridged
//! network.

pub mod barrier;
pub mod codec;
pub mod codec_proofs;
pub mod compact;
pub mod decode;
pub mod dispatch;
pub mod encode;
pub mod hashing;
pub mod location;
pub mod origin;
pub mod program;
pub mod relayer;
pub mod resolver;
