//! A small language server: a length-prefixed JSON-RPC codec over byte
//! streams, an envelope classifier and method dispatcher, and an in-memory
//! store of open documents, all with verified contracts.
pub mod codec;
pub mod did_change;
pub mod dispatch;
pub mod did_open;
pub mod digits;
pub mod errors;
pub mod hover;
pub mod initialize;
pub mod json;
pub mod parse;
pub mod protocol;
pub mod roundtrip;
pub mod state;
pub mod text;
