//! A quote distribution engine: a tick generator that walks a price series per
//! symbol and broadcasts each tick, per-subscriber dispatchers that keep only
//! the subscribed symbols, a registry of active subscriptions, and a liveness
//! monitor that turns keep-alive signals into timeout-based eviction.
pub mod channel;
pub mod command;
pub mod dispatcher;
pub mod generator;
pub mod keyed;
pub mod liveness;
pub mod net;
pub mod paths;
pub mod price;
pub mod quote;
pub mod registry;
pub mod service;
pub mod symbol_set;
pub mod ticker;
