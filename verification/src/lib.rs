//! The core of a peer of a small ledger: blocks of four dictionary words,
//! signed by their proposer, kept in a store under their hash and gossiped
//! between the peers.
//!
//! - [`words`], [`dictionary`] and [`text`]: words, sets of words, and the
//!   words of a line of input.
//! - [`block`]: blocks, their hash, their canonical bytes and their
//!   signature; [`identity`] and [`clock`] hold what libp2p and chrono do
//!   for them.
//! - [`wire`], [`format`] and [`behaviour`]: the binary format, read and
//!   written, and the queue of what the overlay reports.
//! - [`store`] and [`import`]: the store, and the procedure that admits a
//!   block into it.
//! - [`service`] and [`display`]: what the service and its handler decide
//!   for each event, and where the blocks are drawn.
//!
//! Every function states what it returns in terms of a mathematical model of
//! its arguments, and is proved to do so; the functions that call into other
//! crates state what those crates are trusted to do.

pub mod behaviour;
pub mod block;
pub mod clock;
pub mod dictionary;
pub mod display;
pub mod errors;
pub mod format;
pub mod identity;
pub mod import;
pub mod service;
pub mod store;
pub mod text;
pub mod wire;
pub mod words;

pub use block::Block;
pub use errors::Error;
pub use service::Service;
