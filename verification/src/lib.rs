//! Access-control core of a wireless electromechanical lock: a
//! challenge-response protocol that authorizes a single physical actuation
//! only after a remote peer proves possession of a private signing key.
//!
//! The crate holds the security-bearing logic: the challenge lifecycle
//! (issue, bind to peer, expire, consume), signature verification against a
//! fixed public key, outcome classification, the bounded audit log of
//! attempts, and the fixed-width binary encoding of its records. Transport
//! callbacks, the output pin, and configuration loading live outside and
//! hand this library plain values.

pub mod attempt_log;
pub mod challenge;
pub mod codec;
pub mod feedback;
pub mod protocol;
pub mod sig;
