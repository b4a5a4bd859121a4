//! Message commitment and fraud detection for the sending side of a
//! cross-domain bridge.
//!
//! A [`Pallet`] is the home of one domain. It numbers and hashes outbound
//! messages into an append-only tree, records the root of the tree after
//! each message, and judges the updates by which the bonded updater attests
//! that the committed root moves from one recorded root to another. An
//! update to a root that the home never recorded is fraud: the home fails
//! and asks for the updater to be slashed.

pub mod accumulator;
pub mod base;
pub mod history;
pub mod keccak;
pub mod laws;
pub mod message;
pub mod model;
pub mod pallet;
pub mod primitives;
pub mod update;

pub use crate::model::Error;
pub use crate::pallet::{Config, Event, GenesisConfig, Pallet};
