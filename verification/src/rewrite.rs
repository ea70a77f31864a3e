//! The endpoint rewriter: derives the lookup key from request context,
//! consults the resolver, and substitutes the resolved endpoint into the
//! outbound request's target, falling back to a statically configured default
//! whenever resolution yields nothing usable.

use vstd::prelude::*;
use vstd::utf8::decode_utf8;
use vstd::utf8::valid_utf8;

use crate::cache::TierCache;
use crate::cache::model_contains;
use crate::cache::value_of;
use crate::config::key_view;
use crate::lookup::Lookup;
use crate::resolver::ConfigResolver;
use crate::resolver::Outcome;

verus! {

/// Whether a string parses as a URI. The grammar takes pages to state; what
/// matters to the rewriter is only that parsing is a function of the
/// characters alone.
pub uninterp spec fn uri_parses(s: Seq<char>) -> bool;

/// Relies on http::Uri's FromStr impl (reached through str::parse): whether a
/// string parses as a URI depends on the characters alone.
#[verifier::external_body]
fn uri_is_valid(s: &String) -> (b: bool)
    ensures
        b == uri_parses(s@),
{
    s.parse::<http::Uri>().is_ok()
}

/// Relies on core::str::from_utf8: it succeeds exactly on valid UTF-8 and
/// yields the decoding of the bytes.
#[verifier::external_body]
fn utf8_to_string(bytes: &Vec<u8>) -> (r: Option<String>)
    ensures
        r is Some <==> valid_utf8(bytes@),
        r matches Some(s) ==> s@ == decode_utf8(bytes@),
{
    match core::str::from_utf8(bytes.as_slice()) {
        Ok(s) => Some(s.to_owned()),
        Err(_) => None,
    }
}

/// One statically configured fallback: the default endpoint for a service.
pub struct ServiceDefaults {
    pub name: String,
    pub default_uri: String,
}

/// A configuration defect found at startup; the process must refuse to serve.
#[derive(Debug)]
pub enum ConfigError {
    /// A configured default endpoint does not parse as a URI; carries the
    /// offending endpoint string.
    InvalidDefaultUri(String),
}

/// The (service name, default endpoint) table as character sequences.
pub open spec fn table_view(services: Seq<ServiceDefaults>) -> Seq<(Seq<char>, Seq<char>)> {
    services.map_values(|d: ServiceDefaults| (d.name@, d.default_uri@))
}

/// The default endpoint registered for a service: the last entry under the
/// name wins, as it would when loading the table into a map.
pub open spec fn default_for(table: Seq<(Seq<char>, Seq<char>)>, name: Seq<char>) -> Option<
    Seq<char>,
>
    decreases table.len(),
{
    if table.len() == 0 {
        None
    } else if table.last().0 == name {
        Some(table.last().1)
    } else {
        default_for(table.drop_last(), name)
    }
}

/// In a table whose every endpoint parses, any registered default parses.
pub proof fn lemma_default_for_parses(table: Seq<(Seq<char>, Seq<char>)>, name: Seq<char>)
    requires
        forall|i: int| 0 <= i < table.len() ==> uri_parses((#[trigger] table[i]).1),
    ensures
        default_for(table, name) matches Some(u) ==> uri_parses(u),
    decreases table.len(),
{
    if table.len() > 0 && table.last().0 != name {
        assert forall|i: int| 0 <= i < table.drop_last().len() implies uri_parses(
            (#[trigger] table.drop_last()[i]).1,
        ) by {
            assert(table.drop_last()[i] == table[i]);
        }
        lemma_default_for_parses(table.drop_last(), name);
    }
}

/// The partner identifier derived from the inbound signal: the header's value
/// when present and valid UTF-8, the configured default otherwise.
pub open spec fn partner_of(header: Option<Seq<u8>>, dflt: Seq<char>) -> Seq<char> {
    match header {
        Some(b) => if valid_utf8(b) {
            decode_utf8(b)
        } else {
            dflt
        },
        None => dflt,
    }
}

/// The bytes of an optional header value.
pub open spec fn header_view(h: Option<&Vec<u8>>) -> Option<Seq<u8>> {
    match h {
        Some(b) => Some(b@),
        None => None,
    }
}

/// The per-request rewriting step: a static default-endpoint table, validated
/// at construction, and the default partner identifier used when the inbound
/// signal is absent or unreadable.
pub struct EndpointRewriter {
    defaults: Vec<ServiceDefaults>,
    default_partner_id: String,
}

impl EndpointRewriter {
    /// The configured (service, default endpoint) table.
    pub closed spec fn defaults_view(self) -> Seq<(Seq<char>, Seq<char>)> {
        table_view(self.defaults@)
    }

    /// The partner identifier substituted when the inbound signal is missing.
    pub closed spec fn partner_default(self) -> Seq<char> {
        self.default_partner_id@
    }

    /// Well-formedness: every configured default endpoint parses as a URI.
    pub open spec fn wf(self) -> bool {
        forall|i: int|
            0 <= i < self.defaults_view().len() ==> uri_parses(
                (#[trigger] self.defaults_view()[i]).1,
            )
    }

    /// Builds the rewriter, validating the configuration: construction
    /// succeeds exactly when every default endpoint parses as a URI, and
    /// otherwise reports the first endpoint that does not — a fatal startup
    /// error, never a per-request one.
    pub fn new(services: Vec<ServiceDefaults>, default_partner_id: String) -> (r: Result<
        EndpointRewriter,
        ConfigError,
    >)
        ensures
            r is Ok <==> (forall|i: int|
                0 <= i < services@.len() ==> uri_parses(
                    (#[trigger] services@[i]).default_uri@,
                )),
            r matches Ok(w) ==> {
                &&& w.wf()
                &&& w.defaults_view() == table_view(services@)
                &&& w.partner_default() == default_partner_id@
            },
            r matches Err(ConfigError::InvalidDefaultUri(u)) ==> !uri_parses(u@) && (exists|i: int|
                0 <= i < services@.len() && (#[trigger] services@[i]).default_uri@ == u@),
    {
        let n = services.len();
        let mut i: usize = 0;
        while i < n
            invariant
                n == services@.len(),
                0 <= i <= n,
                forall|j: int|
                    0 <= j < i ==> uri_parses((#[trigger] services@[j]).default_uri@),
            decreases n - i,
        {
            let d = &services[i];
            if !uri_is_valid(&d.default_uri) {
                return Err(ConfigError::InvalidDefaultUri(d.default_uri.clone()));
            }
            i = i + 1;
        }
        let w = EndpointRewriter { defaults: services, default_partner_id };
        proof {
            assert forall|i2: int| 0 <= i2 < w.defaults_view().len() implies uri_parses(
                (#[trigger] w.defaults_view()[i2]).1,
            ) by {
                assert(w.defaults_view()[i2].1 == w.defaults@[i2].default_uri@);
            }
        }
        Ok(w)
    }

    /// The default endpoint registered for a service, if any; under a
    /// well-formed rewriter it parses as a URI.
    pub fn default_uri_for(&self, service_name: &String) -> (r: Option<String>)
        ensures
            r matches Some(u) ==> default_for(self.defaults_view(), service_name@) == Some(u@),
            r is None ==> default_for(self.defaults_view(), service_name@) is None,
            self.wf() && r is Some ==> uri_parses(default_for(
                self.defaults_view(),
                service_name@,
            )->Some_0),
    {
        let ghost table = self.defaults_view();
        let mut i: usize = self.defaults.len();
        proof {
            assert(table.take(i as int) =~= table);
        }
        while i > 0
            invariant
                i <= self.defaults.len(),
                table == self.defaults_view(),
                default_for(table, service_name@) == default_for(
                    table.take(i as int),
                    service_name@,
                ),
            decreases i,
        {
            i = i - 1;
            let d = &self.defaults[i];
            proof {
                assert(table.take(i as int + 1).last() == table[i as int]);
                assert(table[i as int] == (d.name@, d.default_uri@));
            }
            if d.name == *service_name {
                proof {
                    if self.wf() {
                        lemma_default_for_parses(table, service_name@);
                    }
                }
                return Some(d.default_uri.clone());
            }
            proof {
                assert(table.take(i as int + 1).drop_last() =~= table.take(i as int));
            }
        }
        proof {
            assert(table.take(0) =~= Seq::<(Seq<char>, Seq<char>)>::empty());
        }
        None
    }

    /// The partner identifier for a request: the designated header's value
    /// when present and valid UTF-8, the configured default otherwise.
    pub fn resolve_partner_id(&self, header_value: Option<&Vec<u8>>) -> (p: String)
        ensures
            p@ == partner_of(header_view(header_value), self.partner_default()),
    {
        match header_value {
            Some(bytes) => match utf8_to_string(bytes) {
                Some(s) => s,
                None => self.default_partner_id.clone(),
            },
            None => self.default_partner_id.clone(),
        }
    }

    /// The endpoint an outbound request for `service_name` is dispatched to,
    /// given a resolution outcome: a found record whose endpoint parses as a
    /// URI wins; a record whose endpoint does not parse, a definite absence
    /// and a lookup failure all fall back to the exact configured default for
    /// the service. The target always parses as a URI.
    ///
    /// A service without a registered default is a startup-time configuration
    /// defect, excluded by the `requires`; it is never a per-request
    /// condition.
    pub fn rewrite_target(&self, service_name: &String, resolution: &Outcome) -> (t: String)
        requires
            self.wf(),
            default_for(self.defaults_view(), service_name@) is Some,
        ensures
            resolution matches Outcome::Found(c) ==> (uri_parses(c@.service_uri) ==> t@
                == c@.service_uri),
            resolution matches Outcome::Found(c) ==> (!uri_parses(c@.service_uri) ==> Some(t@)
                == default_for(self.defaults_view(), service_name@)),
            resolution is NotFound || resolution is Error ==> Some(t@) == default_for(
                self.defaults_view(),
                service_name@,
            ),
            uri_parses(t@),
    {
        match resolution {
            Outcome::Found(record) => {
                if uri_is_valid(&record.service_uri) {
                    record.service_uri.clone()
                } else {
                    self.default_uri_for(service_name).unwrap()
                }
            },
            _ => self.default_uri_for(service_name).unwrap(),
        }
    }

    /// One outbound sub-request handled end to end, as the dispatch hook does
    /// it: derive the partner identifier from the inbound signal, resolve the
    /// (partner, service) pair, and rewrite the target. A cached pair is
    /// answered without an external lookup and rewritten to the cached
    /// record's endpoint (or the default, when that endpoint does not parse);
    /// an uncached pair performs exactly one lookup. The target always parses
    /// as a URI.
    pub fn handle_subgraph_request<L: Lookup>(
        &self,
        resolver: &mut ConfigResolver,
        cache: &mut TierCache,
        source: &mut L,
        partner_header: Option<&Vec<u8>>,
        service_name: &String,
    ) -> (t: String)
        requires
            self.wf(),
            old(cache).wf(),
            old(resolver).lookups() < u64::MAX,
            default_for(self.defaults_view(), service_name@) is Some,
        ensures
            final(cache).wf(),
            final(cache).capacity() == old(cache).capacity(),
            uri_parses(t@),
            ({
                let key = key_view(
                    partner_of(header_view(partner_header), self.partner_default()),
                    service_name@,
                );
                &&& model_contains(old(cache).entries(), key) ==> {
                    &&& final(resolver).lookups() == old(resolver).lookups()
                    &&& t@ == (if uri_parses(value_of(old(cache).entries(), key).service_uri) {
                        value_of(old(cache).entries(), key).service_uri
                    } else {
                        default_for(self.defaults_view(), service_name@)->Some_0
                    })
                }
                &&& !model_contains(old(cache).entries(), key) ==> final(resolver).lookups()
                    == old(resolver).lookups() + 1
            }),
    {
        let partner_id = self.resolve_partner_id(partner_header);
        let outcome = resolver.resolve(cache, source, &partner_id, service_name);
        self.rewrite_target(service_name, &outcome)
    }
}

} // verus!
