//! Bridge between the Daman copy-bond contract on Arc and the hum mesh.
//!
//! Contract events become mesh tones, and mesh tones become contract calls.
//! The bridge is transport: it forwards every event in its topic table and
//! judges none of them.
//!
//! * [`topics`], [`tone`]: from log entries to tones, and the greeting.
//! * [`intent`], [`abi`]: from tones to call data.
//! * [`rpc`]: requests to the chain, and what its replies mean.
//! * [`poll`], [`mesh`]: what to do next, on either side.
//! * [`config`]: settings.
//! * [`digest`], [`json`]: hashes and JSON, through `sha3`, `hex` and
//!   `serde_json`.
//! * [`quantity`], [`text`]: numbers as text, and text.

pub mod abi;
pub mod config;
pub mod digest;
pub mod intent;
pub mod json;
pub mod mesh;
pub mod poll;
pub mod quantity;
pub mod rpc;
pub mod text;
pub mod tone;
pub mod topics;
