//! Ingestion of call-detail records from a telephone switch: a line parser,
//! a per-call aggregator, the read step of a reconnecting stream reader, and
//! the retry policies of webhook delivery and of the liveness heartbeat.

pub mod delivery;
pub mod fields;
pub mod numbers;
pub mod reader;
pub mod stream;
pub mod types;
