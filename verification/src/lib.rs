//! Resolution cache and endpoint rewriting for partner-tiered routing.
//!
//! A request bound for a named downstream service may be redirected to a
//! partner-specific endpoint. The mapping (partner, service) -> endpoint lives
//! in an external store that is slow and may fail, so successful lookups are
//! held in a bounded least-recently-used cache. A rewriting step substitutes
//! the resolved endpoint into the outbound request, falling back to a
//! statically configured default when resolution yields nothing usable, and an
//! operator-triggered gate clears the cache from inbound traffic.

mod cache;
mod config;
mod gate;
mod lookup;
mod resolver;
mod rewrite;

pub use cache::TierCache;
pub use cache::distinct_keys;
pub use cache::index_of_key;
pub use cache::lemma_cleared_cache_misses;
pub use cache::lemma_index_of_key;
pub use cache::lemma_promote;
pub use cache::lemma_set_model;
pub use cache::model_contains;
pub use cache::promote;
pub use cache::set_model;
pub use cache::value_of;
pub use config::Config;
pub use config::ConfigView;
pub use config::cache_key;
pub use config::key_view;
pub use config::lemma_cache_key_injective;
pub use config::separator;
pub use gate::GateAction;
pub use gate::GateResponse;
pub use gate::cache_control;
pub use lookup::ConfigStore;
pub use lookup::HttpReply;
pub use lookup::Lookup;
pub use lookup::LookupOutcome;
pub use lookup::RawResponse;
pub use lookup::classify_http_reply;
pub use lookup::get_config_from_db;
pub use lookup::matches_query;
pub use lookup::query_result;
pub use resolver::ConfigResolver;
pub use resolver::Outcome;
pub use resolver::lemma_found_resolution_hits_next;
pub use rewrite::ConfigError;
pub use rewrite::EndpointRewriter;
pub use rewrite::ServiceDefaults;
pub use rewrite::default_for;
pub use rewrite::header_view;
pub use rewrite::lemma_default_for_parses;
pub use rewrite::partner_of;
pub use rewrite::table_view;
pub use rewrite::uri_parses;
