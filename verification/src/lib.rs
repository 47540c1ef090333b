//! Client-side SSH transport and connection core, written sans-I/O.
//!
//! The library models the protocol as pure state machines over byte
//! buffers: the caller moves raw frames between the network and a
//! session, and supplies the results of the cryptographic primitives
//! (ephemeral keys, shared secrets, digests, signature verdicts) as
//! plain values.

pub mod banner;
pub mod channel;
pub mod codec;
pub mod negotiate;
pub mod error;
pub mod kdf;
pub mod kex;
pub mod messages;
pub mod packet;
pub mod session;
pub mod shell;
pub mod transcript;
