//! The WebSocket side: envelopes, batches, sessions, and the language model client.
pub mod batch;
pub mod batch_ack;
pub mod openai_compat;
pub mod server;
