//! Catan game platform: the game-management coordination core, the board and
//! resource model, and the identifier generators, with machine-checked
//! contracts.
//!
//! The heart of the crate is the game-management service: lifecycle commands
//! arrive over a message bus as field-tagged byte envelopes, are decoded and
//! dispatched to registry operations, and those operations map onto idempotent
//! mutations of a shared coordination store.

pub mod board;
pub mod codec;
pub mod common;
pub mod dispatch;
pub mod errors;
pub mod game;
pub mod ids;
pub mod naming;
pub mod network;
pub mod registry;
pub mod store;
pub mod text;
