//! Real-time guitar effects engine: the processor chain and its mutation
//! rules, the capture/render sample bridge, and the small value types that the
//! control surface exchanges with the engine.

pub mod bridge;
pub mod chain;
pub mod block;
pub mod models;
pub mod requests;
pub mod settings;
mod ring;
pub mod text;
