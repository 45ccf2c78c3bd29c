use vstd::hash_map::StringHashMap;
use vstd::prelude::*;

verus! {

/// Nanoseconds in one second: timestamps are in nanoseconds, TTLs in seconds.
pub const NANOS_PER_SEC: u128 = 1_000_000_000;

/// A fetched payload and the reading of the monotonic clock, in nanoseconds,
/// at which it was stored.
#[derive(Debug, PartialEq, Eq)]
pub struct CachedCredential {
    pub raw: String,
    pub fetched_at: u128,
}

/// Mathematical model of a [`CachedCredential`].
pub struct CachedCredentialView {
    pub raw: Seq<char>,
    pub fetched_at: u128,
}

impl CachedCredentialView {
    /// Nanoseconds between the fetch and `now`; zero where the clock reads
    /// earlier than at the fetch.
    pub open spec fn age(self, now: u128) -> int {
        if now >= self.fetched_at {
            now - self.fetched_at
        } else {
            0
        }
    }

    /// Whether the entry may still be served at `now`: its age is strictly
    /// below the TTL. With a TTL of zero no entry is ever fresh.
    pub open spec fn is_fresh(self, ttl_secs: u64, now: u128) -> bool {
        self.age(now) < ttl_secs * NANOS_PER_SEC
    }
}

impl View for CachedCredential {
    type V = CachedCredentialView;

    open spec fn view(&self) -> CachedCredentialView {
        CachedCredentialView { raw: self.raw@, fetched_at: self.fetched_at }
    }
}

impl CachedCredential {
    /// Whether the entry may still be served at `now` under a TTL of
    /// `ttl_secs` seconds.
    pub fn is_fresh(&self, ttl_secs: u64, now: u128) -> (fresh: bool)
        ensures
            fresh == self@.is_fresh(ttl_secs, now),
    {
        let age: u128 = if now >= self.fetched_at {
            now - self.fetched_at
        } else {
            0
        };
        age < (ttl_secs as u128) * NANOS_PER_SEC
    }
}

/// Key of a cache entry: bucket and token, kept apart so that no two pairs
/// share a key.
pub type CacheKey = (Seq<char>, Seq<char>);

/// The cached payloads, by bucket and token.
///
/// Each bucket that has ever held an entry owns one slot; the slot holds the
/// entries of that bucket by token.
pub struct CredentialCache {
    slots: StringHashMap<usize>,
    entries: Vec<StringHashMap<CachedCredential>>,
}

impl View for CredentialCache {
    type V = Map<CacheKey, CachedCredentialView>;

    closed spec fn view(&self) -> Map<CacheKey, CachedCredentialView> {
        Map::new(
            |key: CacheKey|
                self.slots@.contains_key(key.0) && self.entries[self.slots@[key.0] as int]@.contains_key(
                    key.1,
                ),
            |key: CacheKey| self.entries[self.slots@[key.0] as int]@[key.1]@,
        )
    }
}

impl CredentialCache {
    /// Every slot exists, and no two buckets share one.
    pub closed spec fn wf(&self) -> bool {
        &&& forall|bucket: Seq<char>| #[trigger]
            self.slots@.contains_key(bucket) ==> self.slots@[bucket] < self.entries.len()
        &&& forall|a: Seq<char>, b: Seq<char>|
            #[trigger] self.slots@.contains_key(a) && #[trigger] self.slots@.contains_key(b)
                && self.slots@[a] == self.slots@[b] ==> a == b
    }

    /// An empty cache.
    pub fn new() -> (cache: Self)
        ensures
            cache.wf(),
            cache@ == Map::<CacheKey, CachedCredentialView>::empty(),
    {
        let cache = CredentialCache { slots: StringHashMap::new(), entries: Vec::new() };
        assert(cache@ =~= Map::<CacheKey, CachedCredentialView>::empty());
        cache
    }

    /// The entry stored for `bucket` and `token`, if there is one.
    pub fn get(&self, bucket: &str, token: &str) -> (found: Option<&CachedCredential>)
        requires
            self.wf(),
        ensures
            match found {
                Some(entry) => self@.contains_key((bucket@, token@)) && entry@ == self@[(
                    bucket@,
                    token@,
                )],
                None => !self@.contains_key((bucket@, token@)),
            },
    {
        match self.slots.get(bucket) {
            Some(slot) => self.entries[*slot].get(token),
            None => None,
        }
    }

    /// Removes the entry stored for `bucket` and `token`, if there is one.
    pub fn remove(&mut self, bucket: &str, token: &str)
        requires
            old(self).wf(),
        ensures
            final(self).wf(),
            final(self)@ == old(self)@.remove((bucket@, token@)),
    {
        let slot = match self.slots.get(bucket) {
            Some(slot) => *slot,
            None => {
                assert(self@ =~= old(self)@.remove((bucket@, token@)));
                return ;
            },
        };
        self.entries[slot].remove(token);
        assert(self@ =~= old(self)@.remove((bucket@, token@)));
    }

    /// Stores `entry` for `bucket` and `token`, in place of any earlier one.
    pub fn insert(&mut self, bucket: &str, token: &str, entry: CachedCredential)
        requires
            old(self).wf(),
        ensures
            final(self).wf(),
            final(self)@ == old(self)@.insert((bucket@, token@), entry@),
    {
        let known = match self.slots.get(bucket) {
            Some(slot) => Some(*slot),
            None => None,
        };
        match known {
            Some(slot) => {
                self.entries[slot].insert(token.to_owned(), entry);
            },
            None => {
                let slot = self.entries.len();
                let mut tokens: StringHashMap<CachedCredential> = StringHashMap::new();
                tokens.insert(token.to_owned(), entry);
                self.entries.push(tokens);
                self.slots.insert(bucket.to_owned(), slot);
            },
        }
        assert(self@ =~= old(self)@.insert((bucket@, token@), entry@));
    }
}

} // verus!
