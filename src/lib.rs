//! A lottery round driven by an outside randomness oracle: an owner sets a
//! window, a whitelist and a prize pool; whitelisted participants register
//! and get a lucky number from the oracle; after the window the prizes are
//! handed out by seeded reshuffles of the pool.

pub mod contract;
pub mod distribution;
pub mod error;
pub mod msg;
pub mod order;
pub mod shuffle;
pub mod state;
pub mod utils;
