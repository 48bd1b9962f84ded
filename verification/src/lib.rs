//! A registry of devices behind NAT: each subscribed device owns a record
//! with a stable public name, its current addresses and a DNS-01 challenge
//! slot, and can publish discovery identifiers through which peers find it.
//!
//! - [`store`] holds the records and the discovery identifiers.
//! - [`lifecycle`] creates, updates and deletes records, and reads what the
//!   DNS bridge publishes.
//! - [`discovery`] answers pings and discoveries.
//! - [`routes`] is the registry as it is served: routes, parameters,
//!   responses.
//! - [`laws`] proves what holds across operations.

pub mod config;
pub mod discovery;
pub mod error;
pub mod laws;
pub mod lifecycle;
pub mod record;
pub mod routes;
pub mod store;
pub mod text;
pub mod token;
