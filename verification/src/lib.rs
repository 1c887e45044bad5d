//! Transport and coordination rules of a BFT transaction-commitment service.

pub mod app;
pub mod backoff;
pub mod client;
pub mod client_actor;
pub mod connector;
pub mod crypto;
pub mod fabric;
pub mod framing;
pub mod kv_store;
pub mod message;
pub mod network;
pub mod table;
pub mod transaction;
pub mod types;
