//! Chain monitoring core: message decoding, packet correlation, the store model,
//! collector and supervisor decisions, configuration resolution and the stuck sweep.

pub mod text;
pub mod codec;
pub mod msg;
pub mod proto;
pub mod store;
pub mod ingest;
pub mod client;
pub mod events;
pub mod session;
pub mod config;
pub mod monitor;
pub mod api;
