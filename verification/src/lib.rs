//! Chat-logging core for a livestream chat client: markup extraction, message
//! decoding, a bounded event queue and the ingestion consumer state machine.

pub mod channel;
pub mod consumer;
pub mod data;
pub mod markup;
pub mod strutil;
