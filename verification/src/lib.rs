//! Server-side logic of a trading-simulation data visualizer: the day
//! counter, the event and trader caches that late subscribers replay, the
//! market routing, the ordering of posted goods and the decisions of the
//! event streams.
pub mod interfaces;
pub mod laws;
pub mod market;
pub mod server;
pub mod text;
pub mod trader;
