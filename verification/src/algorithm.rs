//! Balancing strategies and their supporting structures.

pub mod algorithm;
pub mod ip_hash;
pub mod least_latency;
pub mod random;
pub mod round_robin;
pub mod source_ip_hash;
pub mod trie;
pub mod url_hash;
