//! The fingerprint cache: one job identity for each distinct body, kept in a
//! bounded cache of the `moka` crate so that a repeated body finds its
//! workspace again.

use vstd::prelude::*;

verus! {

/// `moka::sync::Cache`. Nothing of its inside is known here; what it holds
/// is `cache_entries`.
#[verifier::external_type_specification]
#[verifier::external_body]
#[verifier::reject_recursive_types(K)]
#[verifier::reject_recursive_types(V)]
#[verifier::reject_recursive_types(S)]
pub struct ExCache<K, V, S>(moka::sync::Cache<K, V, S>);

/// What a lookup in the cache finds at this moment: the value under each
/// key that it still holds.
pub uninterp spec fn cache_entries(c: moka::sync::Cache<String, usize>) -> Map<Seq<char>, usize>;

/// The number of entries that the cache was made to hold at most.
pub uninterp spec fn cache_limit(c: moka::sync::Cache<String, usize>) -> nat;

/// A cache that holds nothing.
pub open spec fn nothing_cached() -> Map<Seq<char>, usize> {
    Map::empty()
}

/// `moka::sync::Cache::new`: an empty cache for up to `limit` entries.
#[verifier::external_body]
fn cache_new(limit: u64) -> (c: moka::sync::Cache<String, usize>)
    ensures
        cache_entries(c) == nothing_cached(),
        cache_limit(c) == limit,
{
    moka::sync::Cache::new(limit)
}

/// `entry_by_ref(key).or_insert(fresh)` on a `moka::sync::Cache`, with the
/// entry's `is_fresh` and `into_value`. Where a lookup finds the key, its
/// value comes back and nothing is inserted; where it does not, `fresh` is
/// inserted under the key and comes back, marked as fresh. The cache may
/// drop entries of its own accord at any call, the new one too, so of the
/// entries afterwards only this holds: each is an entry from before, or the
/// one asked for.
#[verifier::external_body]
fn cache_or_insert(c: &mut moka::sync::Cache<String, usize>, key: &str, fresh: usize) -> (r: (
    usize,
    bool,
))
    ensures
        r.1 == !cache_entries(*old(c)).contains_key(key@),
        r.1 ==> r.0 == fresh,
        !r.1 ==> r.0 == cache_entries(*old(c))[key@],
        cache_entries(*final(c)).submap_of(cache_entries(*old(c)).insert(key@, r.0)),
        cache_limit(*final(c)) == cache_limit(*old(c)),
{
    let entry = c.entry_by_ref(key).or_insert(fresh);
    let is_fresh = entry.is_fresh();
    (entry.into_value(), is_fresh)
}

/// `moka::sync::Cache::get`: the value that a lookup finds under the key,
/// if any. Nothing is added by it, and the cache may drop entries.
#[verifier::external_body]
fn cache_get(c: &mut moka::sync::Cache<String, usize>, key: &str) -> (r: Option<usize>)
    ensures
        r is Some == cache_entries(*old(c)).contains_key(key@),
        r matches Some(v) ==> v == cache_entries(*old(c))[key@],
        cache_entries(*final(c)).submap_of(cache_entries(*old(c))),
        cache_limit(*final(c)) == cache_limit(*old(c)),
{
    c.get(key)
}

/// The number of bodies that the service remembers.
pub const CACHE_CAPACITY: u64 = 8096;

/// Maps each body to its job identity. An identity is made when a body is
/// seen that the cache does not hold, and never made twice.
pub struct FingerprintCache {
    scripts: moka::sync::Cache<String, usize>,
    next: usize,
    issued: Ghost<Map<usize, Seq<char>>>,
}

impl FingerprintCache {
    /// The bodies that the cache holds at this moment, each with its
    /// identity.
    pub closed spec fn cached(self) -> Map<Seq<char>, usize> {
        cache_entries(self.scripts)
    }

    /// Every identity made so far, with the body that it was made for.
    pub closed spec fn issued(self) -> Map<usize, Seq<char>> {
        self.issued@
    }

    /// The number of bodies that the cache was made to hold at most.
    pub closed spec fn limit(self) -> nat {
        cache_limit(self.scripts)
    }

    /// The identity that is made next. Identities count upwards.
    pub closed spec fn count(self) -> nat {
        self.next as nat
    }

    /// Whether the count has come to its end and no identity is left.
    pub open spec fn exhausted(self) -> bool {
        self.count() == usize::MAX
    }

    /// Every cached identity was made for the body that it is cached under,
    /// and the identities still to come are all unused.
    pub closed spec fn wf(self) -> bool {
        &&& forall|k: Seq<char>| #[trigger]
            self.cached().contains_key(k) ==> self.issued@.contains_key(self.cached()[k])
                && self.issued@[self.cached()[k]] == k
        &&& forall|i: usize| #[trigger] self.issued@.contains_key(i) ==> i < self.next
    }

    /// Whether a lookup of `body` that found the cache as `before` may
    /// answer `id` and leave the cache as `after`.
    ///
    /// A body that is cached keeps its identity. Any other gets the next
    /// identity of the count, which was never made before, or none once
    /// they are used up. What was made stays on record, and the cache gains
    /// at most the body asked for.
    pub open spec fn served(before: Self, body: Seq<char>, id: Option<usize>, after: Self) -> bool {
        &&& before.cached().contains_key(body) ==> id == Some(before.cached()[body])
            && after.count() == before.count()
        &&& !before.cached().contains_key(body) ==> match id {
            Some(i) => i == before.count() && !before.issued().contains_key(i) && after.count()
                == before.count() + 1,
            None => before.exhausted() && after.count() == before.count(),
        }
        &&& before.issued().submap_of(after.issued())
        &&& after.limit() == before.limit()
        &&& match id {
            Some(i) => after.issued() == before.issued().insert(i, body) && after.cached().submap_of(
                before.cached().insert(body, i),
            ),
            None => after.issued() == before.issued() && after.cached().submap_of(before.cached()),
        }
    }

    /// An empty cache for up to `limit` bodies, whose first identity is 0.
    pub fn new(limit: u64) -> (c: Self)
        ensures
            c.wf(),
            c.cached() == nothing_cached(),
            c.issued() == Map::<usize, Seq<char>>::empty(),
            c.limit() == limit,
            c.count() == 0,
    {
        Self::starting_at(limit, 0)
    }

    /// An empty cache for up to `limit` bodies, whose first identity is
    /// `first`: a service that finds workspaces on disk when it comes up
    /// goes on counting after them.
    pub fn starting_at(limit: u64, first: usize) -> (c: Self)
        ensures
            c.wf(),
            c.cached() == nothing_cached(),
            c.issued() == Map::<usize, Seq<char>>::empty(),
            c.limit() == limit,
            c.count() == first,
    {
        FingerprintCache { scripts: cache_new(limit), next: first, issued: Ghost(Map::empty()) }
    }

    /// The identity of `body`: the one it has in the cache, or a new one.
    pub fn get_or_create(&mut self, body: &str) -> (id: Option<usize>)
        requires
            old(self).wf(),
        ensures
            final(self).wf(),
            Self::served(*old(self), body@, id, *final(self)),
    {
        let ghost before = old(self).cached();
        if self.next == usize::MAX {
            let found = cache_get(&mut self.scripts, body);
            proof {
                if found is Some {
                    assert(before.contains_key(body@));
                    assert(self.issued@ =~= old(self).issued@.insert(found->0, body@));
                }
                assert forall|k: Seq<char>| #[trigger] self.cached().contains_key(k) implies before.contains_key(
                    k,
                ) && self.cached()[k] == before[k] by {}
            }
            found
        } else {
            let (id, fresh) = cache_or_insert(&mut self.scripts, body, self.next);
            if fresh {
                self.issued = Ghost(self.issued@.insert(id, body@));
                self.next = self.next + 1;
            }
            proof {
                if !fresh {
                    assert(before.contains_key(body@));
                }
                assert(self.issued@ =~= old(self).issued@.insert(id, body@));
                assert forall|k: Seq<char>| #[trigger] self.cached().contains_key(k) implies (k
                    == body@ && self.cached()[k] == id) || (before.contains_key(k)
                    && self.cached()[k] == before[k]) by {
                    assert(before.insert(body@, id).contains_key(k));
                }
            }
            Some(id)
        }
    }

    /// Distinct bodies never share an identity, however many lookups lie
    /// between theirs: an identity that was made for one body is never
    /// given to another.
    pub proof fn lemma_distinct_bodies_distinct_identities(
        c0: Self,
        first: Seq<char>,
        a: usize,
        c1: Self,
        c2: Self,
        second: Seq<char>,
        b: usize,
        c3: Self,
    )
        requires
            Self::served(c0, first, Some(a), c1),
            c1.issued().submap_of(c2.issued()),
            Self::served(c2, second, Some(b), c3),
            first != second,
        ensures
            a != b,
    {
        assert(c1.issued().contains_key(a) && c1.issued()[a] == first);
        assert(c3.issued().contains_key(b) && c3.issued()[b] == second);
        assert(c2.issued().contains_key(a) && c2.issued()[a] == first);
        assert(c3.issued().contains_key(a) && c3.issued()[a] == first);
    }

    /// A body that the cache still holds gets the identity that it got
    /// before.
    pub proof fn lemma_cached_body_keeps_identity(
        c0: Self,
        body: Seq<char>,
        a: usize,
        c1: Self,
        b: Option<usize>,
        c2: Self,
    )
        requires
            Self::served(c0, body, Some(a), c1),
            c1.cached().contains_key(body),
            Self::served(c1, body, b, c2),
        ensures
            b == Some(a),
    {
        assert(c0.cached().insert(body, a).contains_key(body));
    }
}

} // verus!
