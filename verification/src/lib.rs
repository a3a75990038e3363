//! The decision-making core of a light Zcash wallet engine.
//!
//! The library decides; the program around it performs. Every operation of the
//! engine that talks to a database, a server or a device is a small state
//! machine here: it says what to do next, and the caller hands back what came
//! of it.
pub mod cache;
pub mod engine;
pub mod external;
pub mod failure;
pub mod hw_signer;
pub mod inactive;
pub mod keys;
pub mod pass;
pub mod paths;
pub mod retry;
pub mod roots;
pub mod send;
pub mod spend;
pub mod sync;
pub mod text;
pub mod utxos;
