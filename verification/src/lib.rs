//! The core of a pastebin: the codec that turns storage keys into public
//! tokens and back, and the weighted cache of rendered pastes.

pub mod cache;
pub mod codec;
pub mod config;
pub mod error;
pub mod routes;
pub mod state;
