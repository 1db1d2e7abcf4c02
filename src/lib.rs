//! Brute-force search for vanity keypairs: the matching rule, the shared
//! search counters that decide when workers stop, and the batching sink that
//! hands every match on to storage.

pub mod matcher;
pub mod search_state;
pub mod records;
pub mod sink;
