//! The external-lookup collaborator: the narrow interface the resolver
//! consults on a cache miss, and the two source shapes behind it — a
//! point-query record store, and the classification of a lookup-service HTTP
//! reply into the three-outcome contract.

use vstd::prelude::*;
use vstd::string::StringExecFns;

use crate::config::Config;
use crate::config::ConfigView;

verus! {

/// What one external lookup yielded: an endpoint URI, a definite absence, or
/// a failure with its diagnostic. Absence and failure are never cached.
pub enum LookupOutcome {
    Found(String),
    NotFound,
    Error(String),
}

/// The interface to the external store consulted on a cache miss. An
/// implementation decides only the outcome of a single lookup — caching policy
/// belongs to the resolver — and may perform I/O, so nothing is promised of
/// the outcome here.
pub trait Lookup {
    fn lookup(&mut self, partner_id: &String, service_name: &String) -> LookupOutcome;
}

/// Whether a stored record answers the point query for a (partner, service)
/// pair.
pub open spec fn matches_query(c: ConfigView, partner_id: Seq<char>, service_name: Seq<char>) -> bool {
    c.partner_id == partner_id && c.service_name == service_name
}

/// The first stored record answering the point query, if any.
pub open spec fn query_result(
    rs: Seq<ConfigView>,
    partner_id: Seq<char>,
    service_name: Seq<char>,
) -> Option<ConfigView>
    decreases rs.len(),
{
    if rs.len() == 0 {
        None
    } else if matches_query(rs[0], partner_id, service_name) {
        Some(rs[0])
    } else {
        query_result(rs.drop_first(), partner_id, service_name)
    }
}

/// An in-memory point-query store of tier-configuration records, keyed by
/// (partner, service). It stands where a document store would: a lookup is a
/// point query returning the first matching record or nothing.
pub struct ConfigStore {
    records: Vec<Config>,
}

impl View for ConfigStore {
    type V = Seq<ConfigView>;

    closed spec fn view(&self) -> Seq<ConfigView> {
        self.records@.map_values(|c: Config| c@)
    }
}

impl ConfigStore {
    /// An empty store.
    pub fn new() -> (s: ConfigStore)
        ensures
            s@ == Seq::<ConfigView>::empty(),
    {
        let s = ConfigStore { records: Vec::new() };
        proof {
            assert(s@ =~= Seq::<ConfigView>::empty());
        }
        s
    }

    /// Adds a record to the store.
    pub fn add(&mut self, record: Config)
        ensures
            final(self)@ == old(self)@.push(record@),
    {
        let ghost before = self@;
        self.records.push(record);
        proof {
            assert(self@ =~= before.push(self.records@.last()@));
        }
    }
}

/// The point query: the first record stored for the (partner, service) pair,
/// or nothing when no record matches.
pub fn get_config_from_db(
    store: &ConfigStore,
    partner_id: &String,
    service_name: &String,
) -> (r: Option<Config>)
    ensures
        r is Some <==> query_result(store@, partner_id@, service_name@) is Some,
        r matches Some(c) ==> query_result(store@, partner_id@, service_name@) == Some(c@),
{
    let n = store.records.len();
    let mut i: usize = 0;
    proof {
        assert(store@.skip(0) =~= store@);
    }
    while i < n
        invariant
            n == store.records.len(),
            0 <= i <= n,
            query_result(store@, partner_id@, service_name@) == query_result(
                store@.skip(i as int),
                partner_id@,
                service_name@,
            ),
        decreases n - i,
    {
        let record = &store.records[i];
        if record.partner_id == *partner_id && record.service_name == *service_name {
            proof {
                assert(store@.skip(i as int)[0] == store@[i as int]);
            }
            return Some(record.duplicate());
        }
        proof {
            assert(store@.skip(i as int)[0] == store@[i as int]);
            assert(store@.skip(i as int).drop_first() =~= store@.skip(i as int + 1));
        }
        i = i + 1;
    }
    proof {
        assert(store@.skip(n as int) =~= Seq::<ConfigView>::empty());
    }
    None
}

impl Lookup for ConfigStore {
    /// A point query mapped onto the three-outcome contract: a matching record
    /// yields its endpoint, absence yields `NotFound`; an in-memory store
    /// cannot fail.
    fn lookup(&mut self, partner_id: &String, service_name: &String) -> LookupOutcome {
        match get_config_from_db(self, partner_id, service_name) {
            Some(record) => LookupOutcome::Found(record.service_uri),
            None => LookupOutcome::NotFound,
        }
    }
}

/// The body of one lookup-service reply, as far as it could be read: the tag,
/// and either a result object carrying a URL or a diagnostic string.
pub struct RawResponse {
    pub type_tag: String,
    pub url: Option<String>,
    pub diagnostic: Option<String>,
}

/// One HTTP call to the lookup service reduced to plain values: the transport
/// may fail outright, or a status arrives whose body may not parse to the
/// expected shape (`body` is then nothing).
pub enum HttpReply {
    TransportError(String),
    Status { success: bool, body: Option<RawResponse> },
}

/// Classifies a lookup-service reply into the three-outcome contract: a
/// success status whose body is tagged `SUCCESS` and carries a URL is the one
/// found case; a transport error, a non-success status, a malformed body, an
/// unexpected tag or a missing URL all degrade to an error, never a fault.
pub fn classify_http_reply(reply: HttpReply) -> (out: LookupOutcome)
    ensures
        reply matches HttpReply::TransportError(msg) ==> out matches LookupOutcome::Error(e)
            && e@ == msg@,
        reply matches HttpReply::Status { success: false, .. } ==> out matches LookupOutcome::Error(
            e,
        ) && e@ == "lookup service returned a non-success status"@,
        reply matches HttpReply::Status { success: true, body: None } ==> out matches LookupOutcome::Error(
            e,
        ) && e@ == "malformed lookup response body"@,
        reply matches HttpReply::Status { success: true, body: Some(b) } ==> (b.url matches Some(
            u,
        ) ==> (b.type_tag@ == "SUCCESS"@ ==> (out matches LookupOutcome::Found(f) && f@ == u@))),
        reply matches HttpReply::Status { success: true, body: Some(b) } ==> (b.type_tag@
            == "SUCCESS"@ && b.url is None ==> (out matches LookupOutcome::Error(e) && e@
            == "lookup response carries no url"@)),
        reply matches HttpReply::Status { success: true, body: Some(b) } ==> (b.diagnostic matches Some(
            d,
        ) ==> (b.type_tag@ != "SUCCESS"@ ==> (out matches LookupOutcome::Error(e) && e@ == d@))),
        reply matches HttpReply::Status { success: true, body: Some(b) } ==> (b.type_tag@
            != "SUCCESS"@ && b.diagnostic is None ==> (out matches LookupOutcome::Error(e) && e@
            == "lookup failed"@)),
{
    match reply {
        HttpReply::TransportError(msg) => LookupOutcome::Error(msg),
        HttpReply::Status { success: false, body: _ } => LookupOutcome::Error(
            String::from_str("lookup service returned a non-success status"),
        ),
        HttpReply::Status { success: true, body: None } => LookupOutcome::Error(
            String::from_str("malformed lookup response body"),
        ),
        HttpReply::Status { success: true, body: Some(b) } => {
            let success_tag = String::from_str("SUCCESS");
            if b.type_tag == success_tag {
                match b.url {
                    Some(u) => LookupOutcome::Found(u),
                    None => LookupOutcome::Error(
                        String::from_str("lookup response carries no url"),
                    ),
                }
            } else {
                match b.diagnostic {
                    Some(d) => LookupOutcome::Error(d),
                    None => LookupOutcome::Error(String::from_str("lookup failed")),
                }
            }
        },
    }
}

} // verus!
