//! A domain-separated sponge over a fixed-width permutation, for use inside an
//! arithmetic circuit.
//!
//! The sponge absorbs and squeezes values of a circuit in batches, runs the
//! permutation whenever a cursor has passed the last slot, and keeps a history of
//! the batches. Finalizing compresses that history, joins it with the domain
//! separator, hashes both into a tag and writes the tag into the capacity.
//!
//! The permutation, the hash and the circuit are not part of this crate: a
//! sponge implementation supplies them through [`TSpongePrivate`], and gets the
//! protocol of [`TSponge`] in return.

pub mod action;
pub mod binding;
pub mod error;
pub mod log;
pub mod protocol;
pub mod state;

pub use action::{SpongeAction, DIRECTION_BIT, MAX_COUNT};
pub use binding::{Poseidon, PoseidonImpl};
pub use error::SpongeError;
pub use log::{compress_log, tag_preimage};
pub use protocol::TSponge;
pub use state::{Circuit, SpongeModel, SpongeSpec, TSpongePrivate};
