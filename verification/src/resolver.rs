//! The resolver: consults the cache first, performs exactly one external
//! lookup on a miss, and writes only found outcomes back into the cache.
//!
//! The caching policy is deliberately asymmetric: `NotFound` and `Error` are
//! never cached, so every later call for such a key performs the external
//! lookup again until a `Found` is eventually observed. The resolver counts
//! its external lookups, making the call volume — and so the cache-hit and
//! no-negative-caching properties — observable in its contract.

use vstd::prelude::*;

use crate::cache::TierCache;
use crate::cache::model_contains;
use crate::cache::promote;
use crate::cache::set_model;
use crate::cache::value_of;
use crate::config::Config;
use crate::config::ConfigView;
use crate::config::key_view;
use crate::config::cache_key;
use crate::lookup::Lookup;
use crate::lookup::LookupOutcome;

verus! {

/// One resolution: the record for the pair, a definite absence, or a lookup
/// failure with its diagnostic. Absence and failure both degrade to the static
/// default at the rewrite stage and are never cached.
pub enum Outcome {
    Found(Config),
    NotFound,
    Error(String),
}

/// The resolution policy. It holds no data beyond a count of the external
/// lookups it has performed; the cache and the lookup collaborator are
/// injected per call, shared with the rest of the request pipeline.
pub struct ConfigResolver {
    lookup_count: u64,
}

impl ConfigResolver {
    /// How many external lookups this resolver has performed.
    pub closed spec fn lookups(self) -> u64 {
        self.lookup_count
    }

    /// A fresh resolver that has performed no lookup.
    pub fn new() -> (r: ConfigResolver)
        ensures
            r.lookups() == 0,
    {
        ConfigResolver { lookup_count: 0 }
    }

    /// The number of external lookups performed so far.
    pub fn lookup_count(&self) -> (n: u64)
        ensures
            n == self.lookups(),
    {
        self.lookup_count
    }

    /// The cache-probe step of a resolution: derives the composite key and
    /// looks it up. A hit returns the cached record and refreshes its recency;
    /// a miss changes nothing. Callers that share the cache hold their lock
    /// only around this step, never across the external lookup that may
    /// follow.
    pub fn check_cache(cache: &mut TierCache, partner_id: &String, service_name: &String) -> (r:
        Option<Config>)
        requires
            old(cache).wf(),
        ensures
            final(cache).wf(),
            final(cache).capacity() == old(cache).capacity(),
            model_contains(old(cache).entries(), key_view(partner_id@, service_name@)) ==> {
                &&& r matches Some(c) && c@ == value_of(
                    old(cache).entries(),
                    key_view(partner_id@, service_name@),
                )
                &&& final(cache).entries() == promote(
                    old(cache).entries(),
                    key_view(partner_id@, service_name@),
                )
            },
            !model_contains(old(cache).entries(), key_view(partner_id@, service_name@)) ==> {
                &&& r is None
                &&& final(cache).entries() == old(cache).entries()
            },
    {
        let key = cache_key(partner_id, service_name);
        cache.get(&key)
    }

    /// The step after a cache miss, taking whatever the external lookup
    /// yielded. The lookup just performed is counted; a found endpoint is
    /// turned into the pair's record, cached under its key and returned, while
    /// `NotFound` and `Error` pass through and leave the cache unchanged — the
    /// key stays uncached, so the next resolution for it looks up again.
    pub fn finish_lookup(
        &mut self,
        cache: &mut TierCache,
        partner_id: &String,
        service_name: &String,
        looked_up: LookupOutcome,
    ) -> (out: Outcome)
        requires
            old(cache).wf(),
            old(self).lookups() < u64::MAX,
        ensures
            final(cache).wf(),
            final(cache).capacity() == old(cache).capacity(),
            final(self).lookups() == old(self).lookups() + 1,
            looked_up matches LookupOutcome::Found(uri) ==> {
                &&& out matches Outcome::Found(c) && c@ == (ConfigView {
                    partner_id: partner_id@,
                    service_uri: uri@,
                    service_name: service_name@,
                })
                &&& final(cache).entries() == set_model(
                    old(cache).entries(),
                    key_view(partner_id@, service_name@),
                    ConfigView {
                        partner_id: partner_id@,
                        service_uri: uri@,
                        service_name: service_name@,
                    },
                    old(cache).capacity(),
                )
                &&& model_contains(final(cache).entries(), key_view(partner_id@, service_name@))
                &&& value_of(final(cache).entries(), key_view(partner_id@, service_name@))
                    == (ConfigView {
                    partner_id: partner_id@,
                    service_uri: uri@,
                    service_name: service_name@,
                })
            },
            looked_up is NotFound ==> out is NotFound && final(cache).entries() == old(
                cache,
            ).entries(),
            looked_up matches LookupOutcome::Error(m) ==> (out matches Outcome::Error(e) && e@
                == m@) && final(cache).entries() == old(cache).entries(),
    {
        self.lookup_count = self.lookup_count + 1;
        match looked_up {
            LookupOutcome::Found(uri) => {
                let record = Config {
                    partner_id: partner_id.clone(),
                    service_uri: uri,
                    service_name: service_name.clone(),
                };
                let result = record.duplicate();
                let key = cache_key(partner_id, service_name);
                cache.put(key, record);
                Outcome::Found(result)
            },
            LookupOutcome::NotFound => Outcome::NotFound,
            LookupOutcome::Error(message) => Outcome::Error(message),
        }
    }

    /// Resolves the tier configuration for a (partner, service) pair: the
    /// cache-probe step, then — only on a miss — exactly one external lookup,
    /// finished by [`Self::finish_lookup`].
    ///
    /// A cached key is answered from the cache alone: the identical record
    /// comes back, its recency is refreshed, and the lookup collaborator is
    /// not consulted. On a miss a found endpoint is turned into a record,
    /// cached under the pair's key and returned, while `NotFound` and `Error`
    /// pass through and leave the cache unchanged — the key stays uncached, so
    /// the next call for it looks up again.
    pub fn resolve<L: Lookup>(
        &mut self,
        cache: &mut TierCache,
        source: &mut L,
        partner_id: &String,
        service_name: &String,
    ) -> (out: Outcome)
        requires
            old(cache).wf(),
            old(self).lookups() < u64::MAX,
        ensures
            final(cache).wf(),
            final(cache).capacity() == old(cache).capacity(),
            model_contains(old(cache).entries(), key_view(partner_id@, service_name@)) ==> {
                &&& out matches Outcome::Found(c) && c@ == value_of(
                    old(cache).entries(),
                    key_view(partner_id@, service_name@),
                )
                &&& final(self).lookups() == old(self).lookups()
                &&& final(cache).entries() == promote(
                    old(cache).entries(),
                    key_view(partner_id@, service_name@),
                )
            },
            !model_contains(old(cache).entries(), key_view(partner_id@, service_name@)) ==> {
                &&& final(self).lookups() == old(self).lookups() + 1
                &&& (out matches Outcome::Found(c) ==> {
                    &&& c@.partner_id == partner_id@
                    &&& c@.service_name == service_name@
                    &&& final(cache).entries() == set_model(
                        old(cache).entries(),
                        key_view(partner_id@, service_name@),
                        c@,
                        old(cache).capacity(),
                    )
                    &&& model_contains(
                        final(cache).entries(),
                        key_view(partner_id@, service_name@),
                    )
                    &&& value_of(final(cache).entries(), key_view(partner_id@, service_name@))
                        == c@
                })
                &&& (out is NotFound || out is Error ==> {
                    &&& final(cache).entries() == old(cache).entries()
                    &&& !model_contains(
                        final(cache).entries(),
                        key_view(partner_id@, service_name@),
                    )
                })
            },
    {
        match Self::check_cache(cache, partner_id, service_name) {
            Some(record) => Outcome::Found(record),
            None => {
                let looked_up = source.lookup(partner_id, service_name);
                self.finish_lookup(cache, partner_id, service_name, looked_up)
            },
        }
    }

    /// The resolution as an optional record: `Found` becomes the record,
    /// absence and failure become nothing. Caching behaves as in
    /// [`Self::resolve`], of which this is the projection.
    pub fn get_cached_config<L: Lookup>(
        &mut self,
        cache: &mut TierCache,
        source: &mut L,
        partner_id: &String,
        service_name: &String,
    ) -> (r: Option<Config>)
        requires
            old(cache).wf(),
            old(self).lookups() < u64::MAX,
        ensures
            final(cache).wf(),
            final(cache).capacity() == old(cache).capacity(),
            model_contains(old(cache).entries(), key_view(partner_id@, service_name@)) ==> {
                &&& r matches Some(c) && c@ == value_of(
                    old(cache).entries(),
                    key_view(partner_id@, service_name@),
                )
                &&& final(self).lookups() == old(self).lookups()
            },
            !model_contains(old(cache).entries(), key_view(partner_id@, service_name@)) ==> {
                &&& final(self).lookups() == old(self).lookups() + 1
                &&& (r matches Some(c) ==> model_contains(
                    final(cache).entries(),
                    key_view(partner_id@, service_name@),
                ) && value_of(final(cache).entries(), key_view(partner_id@, service_name@)) == c@)
                &&& (r is None ==> final(cache).entries() == old(cache).entries())
            },
    {
        match self.resolve(cache, source, partner_id, service_name) {
            Outcome::Found(record) => Some(record),
            Outcome::NotFound => None,
            Outcome::Error(_) => None,
        }
    }
}

/// The cache-hit law, tying two resolutions together: a record returned as
/// `Found` on a miss leaves the cache in a state ([`set_model`]) that contains
/// it under its key, so [`ConfigResolver::resolve`] for the same pair is then
/// a hit — it returns the identical record and leaves the lookup count
/// unchanged, by its own contract.
pub proof fn lemma_found_resolution_hits_next(
    m: Seq<(Seq<char>, crate::config::ConfigView)>,
    k: Seq<char>,
    v: crate::config::ConfigView,
    cap: nat,
)
    requires
        crate::cache::distinct_keys(m),
        m.len() <= cap,
        cap > 0,
    ensures
        model_contains(set_model(m, k, v, cap), k),
        value_of(set_model(m, k, v, cap), k) == v,
{
    crate::cache::lemma_set_model(m, k, v, cap);
}

} // verus!
