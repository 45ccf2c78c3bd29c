use vstd::hash_map::StringHashMap;
use vstd::prelude::*;

verus! {

/// Mathematical model of a [`CosMapItem`]: every string as its sequence of
/// characters.
pub struct CosMapItemView {
    pub host: Seq<char>,
    pub port: u16,
    pub api_key: Option<Seq<char>>,
    pub access_key: Option<Seq<char>>,
    pub secret_key: Option<Seq<char>>,
    pub ttl: Option<u64>,
}

impl CosMapItemView {
    /// An access key and a secret key are both present.
    pub open spec fn has_hmac(self) -> bool {
        self.access_key is Some && self.secret_key is Some
    }

    /// An API key is present.
    pub open spec fn has_api_key(self) -> bool {
        self.api_key is Some
    }

    /// The configuration carries a credential of either shape.
    pub open spec fn has_credential(self) -> bool {
        self.has_hmac() || self.has_api_key()
    }

    /// Seconds for which a fetched credential may be served; an absent
    /// setting counts as zero.
    pub open spec fn ttl_secs(self) -> u64 {
        match self.ttl {
            Some(t) => t,
            None => 0,
        }
    }
}

/// Connection configuration of one bucket.
///
/// A baseline carries the credential fields that were configured for the
/// bucket itself, if any; a resolved configuration is a copy of the baseline
/// with the fields of a token's credential filled in.
#[derive(Debug, PartialEq, Eq)]
pub struct CosMapItem {
    pub host: String,
    pub port: u16,
    /// API key, the one credential shape.
    pub api_key: Option<String>,
    /// Access key of an HMAC pair, the other credential shape.
    pub access_key: Option<String>,
    /// Secret key of an HMAC pair.
    pub secret_key: Option<String>,
    /// Seconds for which a fetched credential may be served from the cache.
    pub ttl: Option<u64>,
}

/// Model of an optional string.
pub open spec fn opt_view(s: Option<String>) -> Option<Seq<char>> {
    match s {
        Some(v) => Some(v@),
        None => None,
    }
}

impl View for CosMapItem {
    type V = CosMapItemView;

    open spec fn view(&self) -> CosMapItemView {
        CosMapItemView {
            host: self.host@,
            port: self.port,
            api_key: opt_view(self.api_key),
            access_key: opt_view(self.access_key),
            secret_key: opt_view(self.secret_key),
            ttl: self.ttl,
        }
    }
}

impl Clone for CosMapItem {
    fn clone(&self) -> (copy: Self)
        ensures
            copy == *self,
    {
        CosMapItem {
            host: self.host.clone(),
            port: self.port,
            api_key: clone_opt(&self.api_key),
            access_key: clone_opt(&self.access_key),
            secret_key: clone_opt(&self.secret_key),
            ttl: self.ttl,
        }
    }
}

/// Copies an optional string.
fn clone_opt(s: &Option<String>) -> (copy: Option<String>)
    ensures
        copy == *s,
{
    match s {
        Some(v) => Some(v.clone()),
        None => None,
    }
}

impl CosMapItem {
    /// Whether both halves of an HMAC key pair are present.
    pub fn has_hmac(&self) -> (b: bool)
        ensures
            b == self@.has_hmac(),
    {
        self.access_key.is_some() && self.secret_key.is_some()
    }

    /// Whether an API key is present.
    pub fn has_api_key(&self) -> (b: bool)
        ensures
            b == self@.has_api_key(),
    {
        self.api_key.is_some()
    }
}

/// The baseline configuration of every known bucket, by bucket name.
///
/// A registry is filled while the configuration is loaded and then handed to
/// a proxy, which only reads it.
pub struct BaselineRegistry {
    items: StringHashMap<CosMapItem>,
}

impl View for BaselineRegistry {
    type V = Map<Seq<char>, CosMapItemView>;

    closed spec fn view(&self) -> Map<Seq<char>, CosMapItemView> {
        self.items@.map_values(|item: CosMapItem| item@)
    }
}

impl BaselineRegistry {
    /// A registry that knows no bucket.
    pub fn new() -> (registry: Self)
        ensures
            registry@ == Map::<Seq<char>, CosMapItemView>::empty(),
    {
        let registry = BaselineRegistry { items: StringHashMap::new() };
        assert(registry@ =~= Map::<Seq<char>, CosMapItemView>::empty());
        registry
    }

    /// Records `item` as the configuration of `bucket`, in place of any
    /// earlier one.
    pub fn insert(&mut self, bucket: String, item: CosMapItem)
        ensures
            final(self)@ == old(self)@.insert(bucket@, item@),
    {
        self.items.insert(bucket, item);
        assert(self@ =~= old(self)@.insert(bucket@, item@));
    }

    /// The configuration of `bucket`, where one is known.
    pub fn lookup(&self, bucket: &str) -> (found: Option<&CosMapItem>)
        ensures
            match found {
                Some(item) => self@.contains_key(bucket@) && item@ == self@[bucket@],
                None => !self@.contains_key(bucket@),
            },
    {
        self.items.get(bucket)
    }
}

/// One row of a bucket listing: bucket name, host, port and optional API key.
pub type CosMapRow = (String, String, u16, Option<String>);

/// The configuration that a row describes: no HMAC pair and no TTL.
pub open spec fn row_item(row: CosMapRow) -> CosMapItemView {
    CosMapItemView {
        host: row.1@,
        port: row.2,
        api_key: opt_view(row.3),
        access_key: None,
        secret_key: None,
        ttl: None,
    }
}

/// No row after `i` names the bucket of row `i`.
pub open spec fn is_last_for_bucket(rows: Seq<CosMapRow>, i: int) -> bool {
    &&& 0 <= i < rows.len()
    &&& forall|j: int| i < j < rows.len() ==> (#[trigger] rows[j]).0@ != rows[i].0@
}

/// `registry` holds exactly the buckets that `rows` name, each with the
/// configuration of the last row that names it.
pub open spec fn is_cos_map_of(registry: Map<Seq<char>, CosMapItemView>, rows: Seq<CosMapRow>) -> bool {
    &&& forall|bucket: Seq<char>|
        registry.contains_key(bucket) <==> exists|i: int|
            0 <= i < rows.len() && (#[trigger] rows[i]).0@ == bucket
    &&& forall|i: int| #[trigger]
        is_last_for_bucket(rows, i) ==> registry[rows[i].0@] == row_item(rows[i])
}

/// Builds the registry that a bucket listing describes. Where two rows name
/// one bucket, the later row stands.
pub fn parse_cos_map(rows: Vec<CosMapRow>) -> (cos_map: BaselineRegistry)
    ensures
        is_cos_map_of(cos_map@, rows@),
{
    let mut cos_map = BaselineRegistry::new();
    let n = rows.len();
    let mut k: usize = 0;
    while k < n
        invariant
            n == rows.len(),
            k <= n,
            is_cos_map_of(cos_map@, rows@.take(k as int)),
        decreases n - k,
    {
        let row = &rows[k];
        let item = CosMapItem {
            host: row.1.clone(),
            port: row.2,
            api_key: clone_opt(&row.3),
            access_key: None,
            secret_key: None,
            ttl: None,
        };
        let ghost before = cos_map@;
        cos_map.insert(row.0.clone(), item);
        proof {
            let seen = rows@.take(k as int);
            let next = rows@.take(k + 1);
            let after = cos_map@;
            assert(after == before.insert(rows@[k as int].0@, row_item(rows@[k as int])));
            assert(next[k as int] == rows@[k as int]);
            assert forall|bucket: Seq<char>|
                after.contains_key(bucket) <==> exists|i: int|
                    0 <= i < next.len() && (#[trigger] next[i]).0@ == bucket by {
                if after.contains_key(bucket) {
                    if bucket == rows@[k as int].0@ {
                        assert(next[k as int].0@ == bucket);
                    } else {
                        assert(before.contains_key(bucket));
                        let i = choose|i: int| 0 <= i < seen.len() && (#[trigger] seen[i]).0@ == bucket;
                        assert(next[i] == seen[i]);
                    }
                }
                if exists|i: int| 0 <= i < next.len() && (#[trigger] next[i]).0@ == bucket {
                    let i = choose|i: int| 0 <= i < next.len() && (#[trigger] next[i]).0@ == bucket;
                    if i < k {
                        assert(seen[i] == next[i]);
                    }
                }
            }
            assert forall|i: int| #[trigger] is_last_for_bucket(next, i) implies after[next[i].0@]
                == row_item(next[i]) by {
                if i < k {
                    assert(next[k as int].0@ != next[i].0@);
                    assert(seen[i] == next[i]);
                    assert forall|j: int| i < j < seen.len() implies (#[trigger] seen[j]).0@
                        != seen[i].0@ by {
                        assert(seen[j] == next[j]);
                    }
                    assert(is_last_for_bucket(seen, i));
                }
            }
        }
        k = k + 1;
    }
    assert(rows@.take(n as int) =~= rows@);
    cos_map
}

} // verus!
