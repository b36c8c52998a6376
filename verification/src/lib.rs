//! A layer-7 HTTP reverse proxy and load balancer.
//!
//! The crate holds the proxy's decision logic: the balancing strategies,
//! the session mapper, the per-request forwarding pipeline, and the health
//! supervisor's state machine. Listening, forwarding and probing sockets
//! are driven by a thin binary around this library.

pub mod algorithm;
pub mod config;
pub mod cookie;
pub mod error;
pub mod health_check;
pub mod request;
pub mod status;
pub mod text;

use vstd::prelude::*;

use crate::algorithm::algorithm::{spec_alive_copies, spec_known_strategy, Strategy};
use crate::algorithm::url_hash::spec_mapping_entries;
use crate::config::Config;

verus! {

/// Builds the configured strategy at start-up: the variant named by the
/// configuration, loaded with the configured backends and mappings. An
/// unknown strategy name yields nothing, which the caller treats as a
/// fatal start-up error.
pub fn init_strategy(config: &Config) -> (r: Option<Strategy>)
    ensures
        (r is Some) == spec_known_strategy(config.strategy@),
        config.strategy@ == "RoundRobin"@ ==> (r matches Some(Strategy::RoundRobin(rr))
            && rr.current_server == 0 && rr.servers@ == spec_alive_copies(config.backends@)),
        config.strategy@ == "Random"@ ==> (r matches Some(Strategy::Random(rd)) && rd.servers@
            == spec_alive_copies(config.backends@)),
        config.strategy@ == "UriPathHash"@ ==> (r matches Some(Strategy::UriPathHash(u))
            && u.spec_mappings() == spec_mapping_entries(config.backends@, config.mappings@)),
        config.strategy@ == "SourceIPHash"@ ==> (r matches Some(Strategy::SourceIPHash(h))
            && h.spec_mappings() == spec_mapping_entries(config.backends@, config.mappings@)),
        config.strategy@ == "LeastLatency"@ ==> (r matches Some(Strategy::LeastLatency(l))
            && l.current_server == 0 && l.servers@ == spec_alive_copies(config.backends@)),
        r matches Some(s) ==> ((!s.spec_implemented()) == (config.strategy@
            == "WeightedRoundRobin"@ || config.strategy@ == "LeastConnections"@ || config.strategy@
            == "WeightedLeastConnections"@ || config.strategy@ == "LeastTraffic"@)),
{
    match Strategy::from_name(config.strategy.as_str()) {
        Some(mut s) => {
            s.configure(config);
            Some(s)
        },
        None => None,
    }
}

} // verus!
