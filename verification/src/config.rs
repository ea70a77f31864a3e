//! The resolved-endpoint record and its composite cache key.

use vstd::prelude::*;
use vstd::string::StringExecFns;

verus! {

/// The mathematical value of a [`Config`]: the three components as character
/// sequences.
pub ghost struct ConfigView {
    pub partner_id: Seq<char>,
    pub service_uri: Seq<char>,
    pub service_name: Seq<char>,
}

/// A resolved tier configuration: the endpoint a given partner's traffic to a
/// given service should target. Produced by the resolver from a successful
/// external lookup.
#[derive(Clone, Debug)]
pub struct Config {
    pub partner_id: String,
    pub service_uri: String,
    pub service_name: String,
}

impl View for Config {
    type V = ConfigView;

    open spec fn view(&self) -> ConfigView {
        ConfigView {
            partner_id: self.partner_id@,
            service_uri: self.service_uri@,
            service_name: self.service_name@,
        }
    }
}

impl Config {
    /// An exact copy. Written out so that verified callers know the copy
    /// equals the original, which a derived `Clone` would not give them.
    pub fn duplicate(&self) -> (r: Config)
        ensures
            r == *self,
    {
        Config {
            partner_id: self.partner_id.clone(),
            service_uri: self.service_uri.clone(),
            service_name: self.service_name.clone(),
        }
    }
}

/// The separator placed between the partner identifier and the service name in
/// a composite cache key. It is chosen so as not to occur in either component;
/// [`lemma_cache_key_injective`] makes the resulting no-collision guarantee
/// precise.
pub open spec fn separator() -> Seq<char> {
    seq!['-', '#', '-']
}

/// The composite cache key for a (partner, service) pair.
pub open spec fn key_view(partner_id: Seq<char>, service_name: Seq<char>) -> Seq<char> {
    partner_id + separator() + service_name
}

/// Serializes a (partner, service) pair as a single cache key.
pub fn cache_key(partner_id: &String, service_name: &String) -> (key: String)
    ensures
        key@ == key_view(partner_id@, service_name@),
{
    let mut key = partner_id.clone();
    key.append("-#-");
    key.append(service_name.as_str());
    proof {
        reveal_strlit("-#-");
        assert("-#-"@ =~= separator());
        assert(key@ =~= key_view(partner_id@, service_name@));
    }
    key
}

/// Two logically distinct pairs never collide under the key serialization,
/// provided the partner identifiers do not contain the `'#'` character (which
/// pins down where the separator sits inside the key).
pub proof fn lemma_cache_key_injective(p1: Seq<char>, s1: Seq<char>, p2: Seq<char>, s2: Seq<char>)
    requires
        forall|i: int| 0 <= i < p1.len() ==> p1[i] != '#',
        forall|i: int| 0 <= i < p2.len() ==> p2[i] != '#',
        key_view(p1, s1) == key_view(p2, s2),
    ensures
        p1 == p2,
        s1 == s2,
{
    let k = key_view(p1, s1);
    assert(k[p1.len() as int + 1] == '#');
    assert(k[p2.len() as int + 1] == '#');
    if p1.len() < p2.len() {
        let j = p1.len() as int + 1;
        if j < p2.len() {
            assert(k[j] == p2[j]);
            assert(false);
        } else {
            assert(k[j] == separator()[j - p2.len()]);
            assert(false);
        }
    }
    if p2.len() < p1.len() {
        let j = p2.len() as int + 1;
        if j < p1.len() {
            assert(k[j] == p1[j]);
            assert(false);
        } else {
            assert(k[j] == separator()[j - p1.len()]);
            assert(false);
        }
    }
    assert(p1.len() == p2.len());
    assert forall|i: int| 0 <= i < p1.len() implies p1[i] == p2[i] by {
        assert(k[i] == p1[i]);
        assert(k[i] == p2[i]);
    }
    assert(p1 =~= p2);
    assert(k.len() == p1.len() + separator().len() + s1.len());
    assert(key_view(p2, s2).len() == p2.len() + separator().len() + s2.len());
    assert(s1.len() == s2.len());
    assert forall|i: int| 0 <= i < s1.len() implies s1[i] == s2[i] by {
        let j = i + p1.len() + separator().len();
        assert(k[j] == s1[i]);
        assert(k[j] == s2[i]);
    }
    assert(s1 =~= s2);
}

} // verus!
