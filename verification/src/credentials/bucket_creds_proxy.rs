use crate::credentials::cache::{CacheKey, CachedCredential, CachedCredentialView, CredentialCache};
use crate::credentials::models::{decode, BucketCredential, BucketCredentialView, CredentialError};
use crate::parsers::cos_map::{BaselineRegistry, CosMapItem, CosMapItemView};
use vstd::prelude::*;

verus! {

/// Why a resolution failed.
#[derive(Debug, PartialEq, Eq)]
pub enum ProxyError {
    /// The bucket has no baseline configuration.
    UnknownBucket,
    /// The bucket needs a fetched credential and the proxy was built without
    /// a fetcher.
    NoFetcherConfigured,
    /// The fetcher failed; its own message is carried along unchanged.
    FetchFailed(String),
    /// The payload, cached or just fetched, is not a credential.
    MalformedCredential(CredentialError),
}

/// Mathematical model of a [`ProxyError`].
pub enum ProxyErrorView {
    UnknownBucket,
    NoFetcherConfigured,
    FetchFailed(Seq<char>),
    MalformedCredential(CredentialError),
}

impl View for ProxyError {
    type V = ProxyErrorView;

    open spec fn view(&self) -> ProxyErrorView {
        match self {
            ProxyError::UnknownBucket => ProxyErrorView::UnknownBucket,
            ProxyError::NoFetcherConfigured => ProxyErrorView::NoFetcherConfigured,
            ProxyError::FetchFailed(cause) => ProxyErrorView::FetchFailed(cause@),
            ProxyError::MalformedCredential(e) => ProxyErrorView::MalformedCredential(*e),
        }
    }
}

/// What the proxy decided for one request.
#[derive(Debug, PartialEq, Eq)]
pub enum Resolution {
    /// The configuration is complete: the credential is the baseline's own or
    /// was decoded from a fresh cache entry.
    Resolved(CosMapItem),
    /// The caller has to fetch a payload for this bucket and token and hand
    /// the outcome to [`BucketCredProxy::complete_fetch`].
    NeedsFetch,
    /// The request fails without a fetch.
    Failed(ProxyError),
}

/// Mathematical model of a [`Resolution`].
pub enum ResolutionView {
    Resolved(CosMapItemView),
    NeedsFetch,
    Failed(ProxyErrorView),
}

impl View for Resolution {
    type V = ResolutionView;

    open spec fn view(&self) -> ResolutionView {
        match self {
            Resolution::Resolved(item) => ResolutionView::Resolved(item@),
            Resolution::NeedsFetch => ResolutionView::NeedsFetch,
            Resolution::Failed(e) => ResolutionView::Failed(e@),
        }
    }
}

/// Model of the final outcome of a request.
pub open spec fn outcome_view(outcome: Result<CosMapItem, ProxyError>) -> Result<
    CosMapItemView,
    ProxyErrorView,
> {
    match outcome {
        Ok(item) => Ok(item@),
        Err(e) => Err(e@),
    }
}

/// Model of what a fetcher handed back: the payload, or its own message.
pub open spec fn fetched_view(fetched: Result<String, String>) -> Result<Seq<char>, Seq<char>> {
    match fetched {
        Ok(raw) => Ok(raw@),
        Err(cause) => Err(cause@),
    }
}

/// `item` with the fields of `credential` filled in and every other field
/// as it was.
pub open spec fn merge(item: CosMapItemView, credential: BucketCredentialView) -> CosMapItemView {
    match credential {
        BucketCredentialView::Hmac { access_key, secret_key } => CosMapItemView {
            access_key: Some(access_key),
            secret_key: Some(secret_key),
            ..item
        },
        BucketCredentialView::ApiKey(key) => CosMapItemView { api_key: Some(key), ..item },
    }
}

/// `item` with the credential that `raw` decodes to, or the reason why `raw`
/// is no credential.
pub open spec fn apply_payload(item: CosMapItemView, raw: Seq<char>) -> Result<
    CosMapItemView,
    ProxyErrorView,
> {
    match decode(raw) {
        Ok(credential) => Ok(merge(item, credential)),
        Err(e) => Err(ProxyErrorView::MalformedCredential(e)),
    }
}

/// The decision that serves an outcome without a fetch.
pub open spec fn settled(outcome: Result<CosMapItemView, ProxyErrorView>) -> ResolutionView {
    match outcome {
        Ok(item) => ResolutionView::Resolved(item),
        Err(e) => ResolutionView::Failed(e),
    }
}

/// Mathematical model of a [`BucketCredProxy`].
#[verifier::ext_equal]
pub struct ProxyView<F> {
    /// Baseline configuration by bucket.
    pub baseline: Map<Seq<char>, CosMapItemView>,
    /// The fetcher that was supplied, if any.
    pub fetcher: Option<F>,
    /// Cached payloads by bucket and token.
    pub cache: Map<CacheKey, CachedCredentialView>,
}

impl<F> ProxyView<F> {
    /// Whether a fetcher was supplied.
    pub open spec fn has_fetcher(self) -> bool {
        self.fetcher is Some
    }

    /// The bucket is configured and its baseline carries no credential, so
    /// that requests for it are answered from the cache or by a fetch.
    pub open spec fn is_dynamic(self, bucket: Seq<char>) -> bool {
        self.baseline.contains_key(bucket) && !self.baseline[bucket].has_credential()
    }

    /// What holds of every proxy: the cache has entries only for dynamic
    /// buckets, and none at all where no fetcher was supplied.
    pub open spec fn wf(self) -> bool {
        &&& forall|key: CacheKey| #[trigger] self.cache.contains_key(key) ==> self.is_dynamic(key.0)
        &&& !self.has_fetcher() ==> forall|key: CacheKey| !#[trigger] self.cache.contains_key(key)
    }

    /// The cache holds an entry for the pair that is still fresh at `now`
    /// under the bucket's TTL.
    pub open spec fn has_fresh_entry(self, bucket: Seq<char>, token: Seq<char>, now: u128) -> bool {
        &&& self.cache.contains_key((bucket, token))
        &&& self.cache[(bucket, token)].is_fresh(self.baseline[bucket].ttl_secs(), now)
    }

    /// This proxy with the entry of the pair, if any, removed.
    pub open spec fn evict(self, bucket: Seq<char>, token: Seq<char>) -> ProxyView<F> {
        ProxyView { cache: self.cache.remove((bucket, token)), ..self }
    }

    /// This proxy with `raw`, fetched at `now`, stored for the pair.
    pub open spec fn store(
        self,
        bucket: Seq<char>,
        token: Seq<char>,
        raw: Seq<char>,
        now: u128,
    ) -> ProxyView<F> {
        ProxyView {
            cache: self.cache.insert((bucket, token), CachedCredentialView { raw, fetched_at: now }),
            ..self
        }
    }

    /// The proxy after a request at `now`, and the decision taken.
    ///
    /// An unknown bucket fails. A baseline with a credential of its own is
    /// returned as it is, and the cache is left alone. Otherwise a fresh
    /// entry is decoded onto the baseline; an entry that is not fresh is
    /// removed, and the request needs a fetch, or fails where there is no
    /// fetcher.
    pub open spec fn ensure_for(self, bucket: Seq<char>, token: Seq<char>, now: u128) -> (
        ProxyView<F>,
        ResolutionView,
    ) {
        if !self.baseline.contains_key(bucket) {
            (self, ResolutionView::Failed(ProxyErrorView::UnknownBucket))
        } else if self.baseline[bucket].has_credential() {
            (self, ResolutionView::Resolved(self.baseline[bucket]))
        } else if self.has_fresh_entry(bucket, token, now) {
            (self, settled(apply_payload(self.baseline[bucket], self.cache[(bucket, token)].raw)))
        } else if self.has_fetcher() {
            (self.evict(bucket, token), ResolutionView::NeedsFetch)
        } else {
            (self.evict(bucket, token), ResolutionView::Failed(ProxyErrorView::NoFetcherConfigured))
        }
    }

    /// The proxy after a fetch for the pair has ended at `now`, and the
    /// outcome of the request.
    ///
    /// A failed fetch is passed on and changes nothing. A payload is stored
    /// under the pair with `now` as its time, in place of any entry there,
    /// and then decoded onto the baseline: it stays stored even where it
    /// does not decode.
    pub open spec fn complete_fetch(
        self,
        bucket: Seq<char>,
        token: Seq<char>,
        fetched: Result<Seq<char>, Seq<char>>,
        now: u128,
    ) -> (ProxyView<F>, Result<CosMapItemView, ProxyErrorView>) {
        if !self.baseline.contains_key(bucket) {
            (self, Err(ProxyErrorView::UnknownBucket))
        } else if self.baseline[bucket].has_credential() {
            (self, Ok(self.baseline[bucket]))
        } else if !self.has_fetcher() {
            (self, Err(ProxyErrorView::NoFetcherConfigured))
        } else {
            match fetched {
                Err(cause) => (self, Err(ProxyErrorView::FetchFailed(cause))),
                Ok(raw) => (
                    self.store(bucket, token, raw, now),
                    apply_payload(self.baseline[bucket], raw),
                ),
            }
        }
    }
}

/// Resolves the credentials of a bucket for a caller's token: from the
/// baseline where it has its own, else from a cache of fetched payloads that
/// expire after the bucket's TTL.
///
/// The proxy never fetches by itself. [`BucketCredProxy::ensure_for`] says
/// when a fetch is due, the caller runs the fetcher without holding the proxy,
/// and [`BucketCredProxy::complete_fetch`] takes what came back.
pub struct BucketCredProxy<F> {
    base_map: BaselineRegistry,
    bucket_creds_fetcher: Option<F>,
    cache: CredentialCache,
}

impl<F> View for BucketCredProxy<F> {
    type V = ProxyView<F>;

    closed spec fn view(&self) -> ProxyView<F> {
        ProxyView {
            baseline: self.base_map@,
            fetcher: self.bucket_creds_fetcher,
            cache: self.cache@,
        }
    }
}

impl<F> BucketCredProxy<F> {
    /// The proxy's own invariant; it implies that of its model.
    pub closed spec fn wf(&self) -> bool {
        self.cache.wf() && self@.wf()
    }

    /// A well-formed proxy has a well-formed model.
    pub proof fn lemma_view_wf(&self)
        requires
            self.wf(),
        ensures
            self@.wf(),
    {
    }

    /// A proxy over `base_map` with an empty cache.
    pub fn new(base_map: BaselineRegistry, bucket_creds_fetcher: Option<F>) -> (proxy: Self)
        ensures
            proxy.wf(),
            proxy@ == (ProxyView {
                baseline: base_map@,
                fetcher: bucket_creds_fetcher,
                cache: Map::empty(),
            }),
    {
        BucketCredProxy { base_map, bucket_creds_fetcher, cache: CredentialCache::new() }
    }

    /// The fetcher that the proxy was built with.
    pub fn fetcher(&self) -> (found: Option<&F>)
        ensures
            match found {
                Some(fetcher) => self@.fetcher == Some(*fetcher),
                None => self@.fetcher is None,
            },
    {
        self.bucket_creds_fetcher.as_ref()
    }

    /// The decision that [`BucketCredProxy::ensure_for`] would take at clock
    /// reading `now`, taken without touching the cache: an entry that is
    /// not fresh is passed over and stays.
    pub fn peek(&self, bucket: &str, token: &str, now: u128) -> (resolution: Resolution)
        requires
            self.wf(),
        ensures
            resolution@ == self@.ensure_for(bucket@, token@, now).1,
    {
        let mut item = match self.base_map.lookup(bucket) {
            Some(found) => found.clone(),
            None => {
                return Resolution::Failed(ProxyError::UnknownBucket);
            },
        };
        if item.has_hmac() || item.has_api_key() {
            return Resolution::Resolved(item);
        }
        let ttl_secs: u64 = match item.ttl {
            Some(secs) => secs,
            None => 0,
        };
        let cached: Option<String> = match self.cache.get(bucket, token) {
            Some(entry) => if entry.is_fresh(ttl_secs, now) {
                Some(entry.raw.clone())
            } else {
                None
            },
            None => None,
        };
        match cached {
            Some(raw) => match Self::apply_raw(&mut item, raw) {
                Ok(resolved) => Resolution::Resolved(resolved),
                Err(e) => Resolution::Failed(e),
            },
            None => if self.bucket_creds_fetcher.is_some() {
                Resolution::NeedsFetch
            } else {
                Resolution::Failed(ProxyError::NoFetcherConfigured)
            },
        }
    }

    /// Decides the request of `token` for `bucket` at `now`, a reading of a
    /// monotonic clock in nanoseconds, and removes the entry of the pair
    /// where it is no longer fresh.
    ///
    /// In particular: an unknown bucket fails; a baseline with a credential
    /// of its own is returned whatever the token; and without a fetcher
    /// every other bucket fails. None of these asks for a fetch or changes
    /// the proxy.
    pub fn ensure_for(&mut self, bucket: &str, token: &str, now: u128) -> (resolution: Resolution)
        requires
            old(self).wf(),
        ensures
            final(self).wf(),
            (final(self)@, resolution@) == old(self)@.ensure_for(bucket@, token@, now),
            !old(self)@.baseline.contains_key(bucket@) ==> ({
                &&& final(self)@ == old(self)@
                &&& resolution@ == ResolutionView::Failed(ProxyErrorView::UnknownBucket)
            }),
            old(self)@.baseline.contains_key(bucket@) && old(self)@.baseline[bucket@].has_credential()
                ==> ({
                &&& final(self)@ == old(self)@
                &&& resolution@ == ResolutionView::Resolved(old(self)@.baseline[bucket@])
            }),
            old(self)@.is_dynamic(bucket@) && !old(self)@.has_fetcher() ==> ({
                &&& final(self)@ == old(self)@
                &&& resolution@ == ResolutionView::Failed(ProxyErrorView::NoFetcherConfigured)
            }),
            old(self)@.is_dynamic(bucket@) && old(self)@.has_fetcher()
                && old(self)@.baseline[bucket@].ttl_secs() == 0 ==> resolution@
                == ResolutionView::NeedsFetch,
    {
        let resolution = self.peek(bucket, token, now);
        let served = match &resolution {
            Resolution::NeedsFetch => false,
            Resolution::Failed(ProxyError::NoFetcherConfigured) => false,
            _ => true,
        };
        if !served {
            self.cache.remove(bucket, token);
            assert(self@ =~= old(self)@.evict(bucket@, token@));
        }
        resolution
    }

    /// Takes the outcome of the fetch that [`BucketCredProxy::ensure_for`]
    /// asked for and ends the request; `now` is the clock reading, in
    /// nanoseconds, at which the payload is held to be fetched.
    ///
    /// The bucket is looked up again first, so that a call out of turn
    /// stores nothing for a bucket that is unknown or has a credential of
    /// its own, nor in a proxy without a fetcher.
    pub fn complete_fetch(
        &mut self,
        bucket: &str,
        token: &str,
        fetched: Result<String, String>,
        now: u128,
    ) -> (outcome: Result<CosMapItem, ProxyError>)
        requires
            old(self).wf(),
        ensures
            final(self).wf(),
            (final(self)@, outcome_view(outcome)) == old(self)@.complete_fetch(
                bucket@,
                token@,
                fetched_view(fetched),
                now,
            ),
    {
        let mut item = match self.base_map.lookup(bucket) {
            Some(found) => found.clone(),
            None => {
                return Err(ProxyError::UnknownBucket);
            },
        };
        if item.has_hmac() || item.has_api_key() {
            return Ok(item);
        }
        if self.bucket_creds_fetcher.is_none() {
            return Err(ProxyError::NoFetcherConfigured);
        }
        let raw = match fetched {
            Ok(raw) => raw,
            Err(cause) => {
                return Err(ProxyError::FetchFailed(cause));
            },
        };
        self.cache.insert(bucket, token, CachedCredential { raw: raw.clone(), fetched_at: now });
        assert(self@ =~= old(self)@.store(bucket@, token@, raw@, now));
        Self::apply_raw(&mut item, raw)
    }

    /// Decodes `raw` and fills the credential into `item`, of which a copy
    /// is returned. Where `raw` does not decode, `item` stays as it was.
    pub fn apply_raw(item: &mut CosMapItem, raw: String) -> (outcome: Result<CosMapItem, ProxyError>)
        ensures
            outcome_view(outcome) == apply_payload(old(item)@, raw@),
            final(item)@ == match outcome {
                Ok(resolved) => resolved@,
                Err(_) => old(item)@,
            },
    {
        match BucketCredential::parse(raw.as_str()) {
            Ok(BucketCredential::Hmac { access_key, secret_key }) => {
                item.access_key = Some(access_key);
                item.secret_key = Some(secret_key);
            },
            Ok(BucketCredential::ApiKey(key)) => {
                item.api_key = Some(key);
            },
            Err(e) => {
                return Err(ProxyError::MalformedCredential(e));
            },
        }
        Ok(item.clone())
    }
}

} // verus!
