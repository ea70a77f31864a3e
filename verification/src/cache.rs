//! The bounded tier-configuration cache.
//!
//! Entries are modelled as a sequence of (key, record) pairs ordered from most
//! to least recently used. The storage itself is a least-recently-used cache
//! from an outside crate; the handful of operations the library calls are
//! wrapped in trusted items whose contracts state, over that model, what the
//! crate's source shows.

use vstd::prelude::*;

use cached::Cached;
use cached::SizedCache;

use crate::config::Config;
use crate::config::ConfigView;

verus! {

/// Whether `m` holds an entry for key `k`.
pub open spec fn model_contains(m: Seq<(Seq<char>, ConfigView)>, k: Seq<char>) -> bool {
    exists|i: int| 0 <= i < m.len() && (#[trigger] m[i]).0 == k
}

/// The index of the entry for key `k`; meaningful when `model_contains(m, k)`.
pub open spec fn index_of_key(m: Seq<(Seq<char>, ConfigView)>, k: Seq<char>) -> int {
    choose|i: int| 0 <= i < m.len() && (#[trigger] m[i]).0 == k
}

/// The record cached under key `k`; meaningful when `model_contains(m, k)`.
pub open spec fn value_of(m: Seq<(Seq<char>, ConfigView)>, k: Seq<char>) -> ConfigView {
    m[index_of_key(m, k)].1
}

/// No two entries share a key.
pub open spec fn distinct_keys(m: Seq<(Seq<char>, ConfigView)>) -> bool {
    forall|i: int, j: int|
        0 <= i < j < m.len() ==> (#[trigger] m[i]).0 != (#[trigger] m[j]).0
}

/// The entries after a hit on key `k`: its entry moves to the
/// most-recently-used position, everything else keeps its order.
pub open spec fn promote(m: Seq<(Seq<char>, ConfigView)>, k: Seq<char>) -> Seq<
    (Seq<char>, ConfigView),
> {
    let i = index_of_key(m, k);
    seq![m[i]] + m.remove(i)
}

/// The entries after storing `v` under `k` in a cache bounded by `cap`: a
/// present key has its value replaced in place; an absent key enters at the
/// most-recently-used position, dropping the least-recently-used entry if the
/// bound would otherwise be exceeded.
pub open spec fn set_model(
    m: Seq<(Seq<char>, ConfigView)>,
    k: Seq<char>,
    v: ConfigView,
    cap: nat,
) -> Seq<(Seq<char>, ConfigView)> {
    if model_contains(m, k) {
        m.update(index_of_key(m, k), (k, v))
    } else {
        let n = seq![(k, v)] + m;
        if n.len() > cap {
            n.drop_last()
        } else {
            n
        }
    }
}

/// Relies on cached::SizedCache, the bounded least-recently-used store this
/// cache is built on; the type is opaque here, spoken of only through
/// [`sc_entries`] and [`sc_capacity`].
#[verifier::external_type_specification]
#[verifier::external_body]
#[verifier::reject_recursive_types(K)]
#[verifier::reject_recursive_types(V)]
pub struct ExSizedCache<K, V>(SizedCache<K, V>);

/// The entries of the outside cache, from most to least recently used.
pub uninterp spec fn sc_entries(c: SizedCache<String, Config>) -> Seq<(Seq<char>, ConfigView)>;

/// The capacity bound the outside cache was constructed with.
pub uninterp spec fn sc_capacity(c: SizedCache<String, Config>) -> nat;

/// Relies on cached::SizedCache::with_size: a fresh cache with the given
/// capacity bound and no entries. It panics on a zero size, and it
/// pre-allocates backing storage for two more slots than the bound; the
/// `requires` excludes both the zero and the overflowing sizes.
#[verifier::external_body]
fn sc_with_size(size: usize) -> (c: SizedCache<String, Config>)
    requires
        0 < size <= usize::MAX - 2,
    ensures
        sc_entries(c) == Seq::<(Seq<char>, ConfigView)>::empty(),
        sc_capacity(c) == size as nat,
{
    SizedCache::with_size(size)
}

/// Relies on cached::SizedCache::cache_get (its impl of the Cached trait): a
/// present key has its entry moved to the most-recently-used position and a
/// copy of its value returned; an absent key leaves the entries unchanged and
/// yields nothing.
#[verifier::external_body]
fn sc_get(c: &mut SizedCache<String, Config>, key: &String) -> (r: Option<Config>)
    requires
        distinct_keys(sc_entries(*old(c))),
    ensures
        sc_capacity(*final(c)) == sc_capacity(*old(c)),
        model_contains(sc_entries(*old(c)), key@) ==> {
            &&& sc_entries(*final(c)) == promote(sc_entries(*old(c)), key@)
            &&& r matches Some(v) && v@ == value_of(sc_entries(*old(c)), key@)
        },
        !model_contains(sc_entries(*old(c)), key@) ==> {
            &&& sc_entries(*final(c)) == sc_entries(*old(c))
            &&& r is None
        },
{
    c.cache_get(key).cloned()
}

/// Relies on cached::SizedCache::cache_set (its impl of the Cached trait): a
/// present key has its value replaced in place, keeping its recency position;
/// an absent key is inserted at the most-recently-used position and, if the
/// entry count then exceeds the capacity bound, the least-recently-used entry
/// is dropped.
#[verifier::external_body]
fn sc_set(c: &mut SizedCache<String, Config>, key: String, value: Config)
    requires
        distinct_keys(sc_entries(*old(c))),
    ensures
        sc_capacity(*final(c)) == sc_capacity(*old(c)),
        sc_entries(*final(c)) == set_model(
            sc_entries(*old(c)),
            key@,
            value@,
            sc_capacity(*old(c)),
        ),
{
    c.cache_set(key, value);
}

/// Relies on cached::SizedCache::cache_clear (its impl of the Cached trait):
/// removes every entry; the capacity bound is fixed at construction and stays.
#[verifier::external_body]
fn sc_clear(c: &mut SizedCache<String, Config>)
    ensures
        sc_capacity(*final(c)) == sc_capacity(*old(c)),
        sc_entries(*final(c)) == Seq::<(Seq<char>, ConfigView)>::empty(),
{
    c.cache_clear();
}

/// Relies on cached::SizedCache::cache_size (its impl of the Cached trait):
/// the number of entries held.
#[verifier::external_body]
fn sc_len(c: &SizedCache<String, Config>) -> (n: usize)
    ensures
        n as nat == sc_entries(*c).len(),
{
    c.cache_size()
}

/// The bounded, least-recently-used cache of resolved tier configurations,
/// keyed by the composite (partner, service) key. Losing an entry is always
/// safe: the cache is an accelerator, never the source of truth.
pub struct TierCache {
    inner: SizedCache<String, Config>,
}

impl TierCache {
    /// The cached entries, from most to least recently used.
    pub closed spec fn entries(self) -> Seq<(Seq<char>, ConfigView)> {
        sc_entries(self.inner)
    }

    /// The fixed capacity bound.
    pub closed spec fn capacity(self) -> nat {
        sc_capacity(self.inner)
    }

    /// Well-formedness: keys are unique, the entry count never exceeds the
    /// capacity bound, and the bound is positive.
    pub open spec fn wf(self) -> bool {
        &&& distinct_keys(self.entries())
        &&& self.entries().len() <= self.capacity()
        &&& self.capacity() > 0
    }

    /// A fresh cache bounded by `size` entries. The storage keeps two
    /// auxiliary slots beside the bound, so the bound must leave room for
    /// them.
    pub fn with_size(size: usize) -> (c: TierCache)
        requires
            0 < size <= usize::MAX - 2,
        ensures
            c.wf(),
            c.entries() == Seq::<(Seq<char>, ConfigView)>::empty(),
            c.capacity() == size as nat,
    {
        TierCache { inner: sc_with_size(size) }
    }

    /// Looks `key` up. A hit returns the cached record and refreshes its
    /// recency; a miss changes nothing.
    pub fn get(&mut self, key: &String) -> (r: Option<Config>)
        requires
            old(self).wf(),
        ensures
            final(self).wf(),
            final(self).capacity() == old(self).capacity(),
            model_contains(old(self).entries(), key@) ==> {
                &&& final(self).entries() == promote(old(self).entries(), key@)
                &&& r matches Some(v) && v@ == value_of(old(self).entries(), key@)
            },
            !model_contains(old(self).entries(), key@) ==> {
                &&& final(self).entries() == old(self).entries()
                &&& r is None
            },
    {
        let r = sc_get(&mut self.inner, key);
        proof {
            if model_contains(sc_entries(old(self).inner), key@) {
                lemma_promote(sc_entries(old(self).inner), key@);
            }
        }
        r
    }

    /// Stores `value` under `key`. A present key keeps its recency position;
    /// an absent key enters as most recently used, evicting the
    /// least-recently-used entry if the cache is full.
    pub fn put(&mut self, key: String, value: Config)
        requires
            old(self).wf(),
        ensures
            final(self).wf(),
            final(self).capacity() == old(self).capacity(),
            final(self).entries() == set_model(
                old(self).entries(),
                key@,
                value@,
                old(self).capacity(),
            ),
            model_contains(final(self).entries(), key@),
            value_of(final(self).entries(), key@) == value@,
    {
        proof {
            lemma_set_model(sc_entries(self.inner), key@, value@, sc_capacity(self.inner));
        }
        sc_set(&mut self.inner, key, value);
    }

    /// Removes every entry.
    pub fn clear(&mut self)
        ensures
            final(self).wf() <== old(self).wf(),
            final(self).capacity() == old(self).capacity(),
            final(self).entries() == Seq::<(Seq<char>, ConfigView)>::empty(),
    {
        sc_clear(&mut self.inner);
    }

    /// The number of entries held.
    pub fn len(&self) -> (n: usize)
        ensures
            n as nat == self.entries().len(),
    {
        sc_len(&self.inner)
    }
}

/// The entry for a contained key is unique: any index holding the key is the
/// chosen one.
pub proof fn lemma_index_of_key(m: Seq<(Seq<char>, ConfigView)>, k: Seq<char>)
    requires
        distinct_keys(m),
        model_contains(m, k),
    ensures
        0 <= index_of_key(m, k) < m.len(),
        m[index_of_key(m, k)].0 == k,
        forall|i: int| 0 <= i < m.len() && (#[trigger] m[i]).0 == k ==> i == index_of_key(m, k),
{
    let i = index_of_key(m, k);
    assert(0 <= i < m.len() && m[i].0 == k);
}

/// A hit permutes the entries: the hit key moves to the front with its value,
/// every key keeps its presence and its cached record, and neither the length
/// nor key uniqueness changes.
pub proof fn lemma_promote(m: Seq<(Seq<char>, ConfigView)>, k: Seq<char>)
    requires
        distinct_keys(m),
        model_contains(m, k),
    ensures
        promote(m, k).len() == m.len(),
        distinct_keys(promote(m, k)),
        promote(m, k)[0] == (k, value_of(m, k)),
        forall|k2: Seq<char>|
            #[trigger] model_contains(promote(m, k), k2) <==> model_contains(m, k2),
        forall|k2: Seq<char>|
            model_contains(m, k2) ==> #[trigger] value_of(promote(m, k), k2) == value_of(m, k2),
{
    lemma_index_of_key(m, k);
    let i = index_of_key(m, k);
    let p = promote(m, k);
    m.remove_ensures(i);
    assert(p[0] == m[i]);
    assert(m[i] == (k, value_of(m, k)));

    // Each entry of the permutation comes from a distinct index of `m`.
    assert forall|a: int, b: int| 0 <= a < b < p.len() implies (#[trigger] p[a]).0 != (
    #[trigger] p[b]).0 by {
        let fa = if a == 0 { i } else if a - 1 < i { a - 1 } else { a };
        let fb = if b == 0 { i } else if b - 1 < i { b - 1 } else { b };
        assert(p[a] == m[fa]);
        assert(p[b] == m[fb]);
        assert(fa != fb);
    }

    assert forall|k2: Seq<char>| #[trigger] model_contains(p, k2) implies model_contains(m, k2) by {
        let a = choose|a: int| 0 <= a < p.len() && (#[trigger] p[a]).0 == k2;
        let fa = if a == 0 { i } else if a - 1 < i { a - 1 } else { a };
        assert(p[a] == m[fa]);
    }
    assert forall|k2: Seq<char>| model_contains(m, k2) implies #[trigger] model_contains(p, k2) by {
        let b = choose|b: int| 0 <= b < m.len() && (#[trigger] m[b]).0 == k2;
        if b == i {
            assert(p[0] == m[b]);
        } else if b < i {
            assert(p[b + 1] == m[b]);
        } else {
            assert(p[b] == m[b]);
        }
    }
    assert forall|k2: Seq<char>| model_contains(m, k2) implies #[trigger] value_of(p, k2)
        == value_of(m, k2) by {
        let b = index_of_key(m, k2);
        lemma_index_of_key(m, k2);
        let a = if b == i { 0int } else if b < i { b + 1 } else { b };
        assert(p[a] == m[b]);
        lemma_index_of_key(p, k2);
        assert(index_of_key(p, k2) == a);
    }
}

/// Storing a record keeps keys unique, never exceeds the capacity bound, and
/// caches the record under its key; when an absent key enters a full cache,
/// exactly the least-recently-used entry leaves.
pub proof fn lemma_set_model(m: Seq<(Seq<char>, ConfigView)>, k: Seq<char>, v: ConfigView, cap: nat)
    requires
        distinct_keys(m),
        m.len() <= cap,
        cap > 0,
    ensures
        distinct_keys(set_model(m, k, v, cap)),
        set_model(m, k, v, cap).len() <= cap,
        model_contains(set_model(m, k, v, cap), k),
        value_of(set_model(m, k, v, cap), k) == v,
        !model_contains(m, k) && m.len() < cap ==> set_model(m, k, v, cap) == seq![(k, v)] + m,
        !model_contains(m, k) && m.len() == cap ==> set_model(m, k, v, cap) == (seq![(k, v)]
            + m).drop_last(),
        !model_contains(m, k) && m.len() == cap ==> !model_contains(
            set_model(m, k, v, cap),
            m.last().0,
        ),
{
    let n = set_model(m, k, v, cap);
    if model_contains(m, k) {
        lemma_index_of_key(m, k);
        let i = index_of_key(m, k);
        assert(n == m.update(i, (k, v)));
        assert forall|a: int, b: int| 0 <= a < b < n.len() implies (#[trigger] n[a]).0 != (
        #[trigger] n[b]).0 by {
            assert(m[a].0 != m[b].0);
        }
        assert(n[i].0 == k);
        assert(model_contains(n, k));
        lemma_index_of_key(n, k);
        assert(index_of_key(n, k) == i);
    } else {
        let full = seq![(k, v)] + m;
        // No entry of `m` carries `k`, so prepending keeps keys unique.
        assert forall|a: int, b: int| 0 <= a < b < full.len() implies (#[trigger] full[a]).0 != (
        #[trigger] full[b]).0 by {
            if a == 0 {
                assert(full[b] == m[b - 1]);
                assert(m[b - 1].0 != k);
            } else {
                assert(full[a] == m[a - 1]);
                assert(full[b] == m[b - 1]);
            }
        }
        if full.len() > cap {
            assert(n == full.drop_last());
            assert forall|a: int, b: int| 0 <= a < b < n.len() implies (#[trigger] n[a]).0 != (
            #[trigger] n[b]).0 by {
                assert(n[a] == full[a]);
                assert(n[b] == full[b]);
            }
            assert(n[0].0 == k);
            assert(model_contains(n, k));
            lemma_index_of_key(n, k);
            assert(index_of_key(n, k) == 0);
            // The dropped entry is the last of `m`, and its key leaves.
            assert(m.len() == cap);
            assert forall|a: int| 0 <= a < n.len() implies (#[trigger] n[a]).0 != m.last().0 by {
                if a > 0 {
                    assert(n[a] == m[a - 1]);
                    assert(m[a - 1].0 != m[m.len() - 1].0);
                } else {
                    assert(n[0].0 == k);
                    assert(m[m.len() - 1].0 != k);
                }
            }
        } else {
            assert(n == full);
            assert(n[0].0 == k);
            assert(model_contains(n, k));
            lemma_index_of_key(n, k);
            assert(index_of_key(n, k) == 0);
        }
    }
}

/// A cleared cache misses every key: no key is contained in the empty entry
/// sequence, so a `get` after a `clear` returns nothing.
pub proof fn lemma_cleared_cache_misses(k: Seq<char>)
    ensures
        !model_contains(Seq::<(Seq<char>, ConfigView)>::empty(), k),
{
}

} // verus!
