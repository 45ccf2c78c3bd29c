//! What holds of every proxy, stated over its model and proved once.

use crate::credentials::bucket_creds_proxy::{
    apply_payload, settled, ProxyErrorView, ProxyView, ResolutionView,
};
use crate::credentials::cache::NANOS_PER_SEC;
use crate::parsers::cos_map::CosMapItemView;
use vstd::prelude::*;

verus! {

/// A bucket whose baseline carries an HMAC pair or an API key is answered
/// with that baseline, whatever the token, the time and the cache: no fetch
/// is asked for and the proxy does not change.
pub proof fn law_static_credential_is_returned<F>(
    proxy: ProxyView<F>,
    bucket: Seq<char>,
    token: Seq<char>,
    now: u128,
)
    requires
        proxy.baseline.contains_key(bucket),
        proxy.baseline[bucket].has_hmac() || proxy.baseline[bucket].has_api_key(),
    ensures
        proxy.ensure_for(bucket, token, now) == (
            proxy,
            ResolutionView::Resolved(proxy.baseline[bucket]),
        ),
{
}

/// While the age of a stored payload is below the bucket's TTL, a request
/// for the same bucket and token gets what the fetch itself got, decoded
/// anew: no fetch is asked for and the proxy does not change. This holds of
/// a payload that does not decode as well: the same error comes back.
pub proof fn law_fresh_payload_is_served<F>(
    proxy: ProxyView<F>,
    bucket: Seq<char>,
    token: Seq<char>,
    raw: Seq<char>,
    fetched_at: u128,
    now: u128,
)
    requires
        proxy.has_fetcher(),
        proxy.is_dynamic(bucket),
        fetched_at <= now,
        now - fetched_at < proxy.baseline[bucket].ttl_secs() * NANOS_PER_SEC,
    ensures
        ({
            let (stored, outcome) = proxy.complete_fetch(bucket, token, Ok(raw), fetched_at);
            stored.ensure_for(bucket, token, now) == (stored, settled(outcome))
        }),
{
}

/// Once the age of a stored payload has reached the bucket's TTL, the next
/// request for the same bucket and token removes it and asks for a fetch.
pub proof fn law_expired_payload_is_refetched<F>(
    proxy: ProxyView<F>,
    bucket: Seq<char>,
    token: Seq<char>,
    raw: Seq<char>,
    fetched_at: u128,
    now: u128,
)
    requires
        proxy.has_fetcher(),
        proxy.is_dynamic(bucket),
        fetched_at <= now,
        now - fetched_at >= proxy.baseline[bucket].ttl_secs() * NANOS_PER_SEC,
    ensures
        ({
            let (stored, _) = proxy.complete_fetch(bucket, token, Ok(raw), fetched_at);
            let (after, resolution) = stored.ensure_for(bucket, token, now);
            &&& resolution == ResolutionView::NeedsFetch
            &&& after == stored.evict(bucket, token)
            &&& !after.cache.contains_key((bucket, token))
        }),
{
}

/// With a TTL of zero, or none, no cache entry is ever fresh: every request
/// for a bucket without a credential of its own asks for a fetch.
pub proof fn law_zero_ttl_always_fetches<F>(
    proxy: ProxyView<F>,
    bucket: Seq<char>,
    token: Seq<char>,
    now: u128,
)
    requires
        proxy.has_fetcher(),
        proxy.is_dynamic(bucket),
        proxy.baseline[bucket].ttl_secs() == 0,
    ensures
        !proxy.has_fresh_entry(bucket, token, now),
        proxy.ensure_for(bucket, token, now).1 == ResolutionView::NeedsFetch,
{
}

/// What is stored for one bucket and token leaves every other pair as it
/// was: its entry, and the decision that a request for it gets.
pub proof fn law_pairs_are_cached_independently<F>(
    proxy: ProxyView<F>,
    bucket: Seq<char>,
    token: Seq<char>,
    fetched: Result<Seq<char>, Seq<char>>,
    fetched_at: u128,
    other_bucket: Seq<char>,
    other_token: Seq<char>,
    now: u128,
)
    requires
        bucket != other_bucket || token != other_token,
    ensures
        ({
            let (after, _) = proxy.complete_fetch(bucket, token, fetched, fetched_at);
            let other = (other_bucket, other_token);
            &&& after.cache.contains_key(other) == proxy.cache.contains_key(other)
            &&& after.cache[other] == proxy.cache[other]
            &&& after.ensure_for(other_bucket, other_token, now).1 == proxy.ensure_for(
                other_bucket,
                other_token,
                now,
            ).1
        }),
{
}

/// A fetch for one token does not answer a request for another token of the
/// same bucket: where nothing was stored for the second token, its request
/// still asks for a fetch.
pub proof fn law_other_token_still_fetches<F>(
    proxy: ProxyView<F>,
    bucket: Seq<char>,
    token: Seq<char>,
    raw: Seq<char>,
    fetched_at: u128,
    other_token: Seq<char>,
    now: u128,
)
    requires
        proxy.has_fetcher(),
        proxy.is_dynamic(bucket),
        token != other_token,
        !proxy.cache.contains_key((bucket, other_token)),
    ensures
        ({
            let (after, _) = proxy.complete_fetch(bucket, token, Ok(raw), fetched_at);
            after.ensure_for(bucket, other_token, now).1 == ResolutionView::NeedsFetch
        }),
{
}

/// A request for a bucket without baseline configuration fails as unknown:
/// no fetch is asked for and the proxy does not change.
pub proof fn law_unknown_bucket_fails<F>(
    proxy: ProxyView<F>,
    bucket: Seq<char>,
    token: Seq<char>,
    now: u128,
)
    requires
        !proxy.baseline.contains_key(bucket),
    ensures
        proxy.ensure_for(bucket, token, now) == (
            proxy,
            ResolutionView::Failed(ProxyErrorView::UnknownBucket),
        ),
{
}

/// Without a fetcher, a request for a bucket that has no credential of its
/// own fails, and the proxy does not change.
pub proof fn law_missing_fetcher_fails<F>(
    proxy: ProxyView<F>,
    bucket: Seq<char>,
    token: Seq<char>,
    now: u128,
)
    requires
        proxy.wf(),
        !proxy.has_fetcher(),
        proxy.is_dynamic(bucket),
    ensures
        proxy.ensure_for(bucket, token, now) == (
            proxy,
            ResolutionView::Failed(ProxyErrorView::NoFetcherConfigured),
        ),
{
    assert(!proxy.cache.contains_key((bucket, token)));
    assert(proxy.evict(bucket, token) =~= proxy);
}

/// A request for a bucket without a credential of its own gets a
/// configuration only from a fresh entry of its bucket and token. A fresh
/// entry is decoded and stays; where the entry is not fresh, none is left
/// under the pair.
pub proof fn law_only_fresh_entries_are_served<F>(
    proxy: ProxyView<F>,
    bucket: Seq<char>,
    token: Seq<char>,
    now: u128,
)
    requires
        proxy.is_dynamic(bucket),
    ensures
        ({
            let (after, resolution) = proxy.ensure_for(bucket, token, now);
            let fresh = proxy.has_fresh_entry(bucket, token, now);
            &&& resolution is Resolved ==> fresh
            &&& fresh ==> after == proxy && resolution == settled(
                apply_payload(proxy.baseline[bucket], proxy.cache[(bucket, token)].raw),
            )
            &&& !fresh ==> !after.cache.contains_key((bucket, token))
        }),
{
}

/// Whatever a request is answered with carries a credential, and has the
/// host, the port and the TTL of the bucket's baseline.
pub proof fn law_answers_carry_a_credential<F>(
    proxy: ProxyView<F>,
    bucket: Seq<char>,
    token: Seq<char>,
    fetched: Result<Seq<char>, Seq<char>>,
    now: u128,
)
    ensures
        match proxy.ensure_for(bucket, token, now).1 {
            ResolutionView::Resolved(item) => {
                &&& item.has_credential()
                &&& item.host == proxy.baseline[bucket].host
                &&& item.port == proxy.baseline[bucket].port
                &&& item.ttl == proxy.baseline[bucket].ttl
            },
            _ => true,
        },
        match proxy.complete_fetch(bucket, token, fetched, now).1 {
            Ok(item) => {
                &&& item.has_credential()
                &&& item.host == proxy.baseline[bucket].host
                &&& item.port == proxy.baseline[bucket].port
                &&& item.ttl == proxy.baseline[bucket].ttl
            },
            Err(_) => true,
        },
{
}

/// Requests are not coalesced: once a request has been told to fetch, every
/// request for the same bucket and token is told so too, until one of the
/// fetches has been completed.
pub proof fn law_misses_are_not_coalesced<F>(
    proxy: ProxyView<F>,
    bucket: Seq<char>,
    token: Seq<char>,
    now: u128,
    later: u128,
)
    requires
        proxy.ensure_for(bucket, token, now).1 == ResolutionView::NeedsFetch,
    ensures
        ({
            let (pending, _) = proxy.ensure_for(bucket, token, now);
            pending.ensure_for(bucket, token, later) == (pending, ResolutionView::NeedsFetch)
        }),
{
    let pending = proxy.ensure_for(bucket, token, now).0;
    assert(pending.evict(bucket, token) =~= pending);
}

/// Of two fetches completed for one bucket and token the later one stands:
/// the proxy is as if the earlier payload had never been stored.
pub proof fn law_last_fetch_stands<F>(
    proxy: ProxyView<F>,
    bucket: Seq<char>,
    token: Seq<char>,
    earlier: Seq<char>,
    earlier_at: u128,
    later: Seq<char>,
    later_at: u128,
)
    ensures
        ({
            let (first, _) = proxy.complete_fetch(bucket, token, Ok(earlier), earlier_at);
            first.complete_fetch(bucket, token, Ok(later), later_at) == proxy.complete_fetch(
                bucket,
                token,
                Ok(later),
                later_at,
            )
        }),
{
    let first = proxy.complete_fetch(bucket, token, Ok(earlier), earlier_at).0;
    if proxy.is_dynamic(bucket) && proxy.has_fetcher() {
        assert(first.store(bucket, token, later, later_at) =~= proxy.store(
            bucket,
            token,
            later,
            later_at,
        ));
    }
}

/// A failed fetch is passed on with its message and changes nothing.
pub proof fn law_failed_fetch_changes_nothing<F>(
    proxy: ProxyView<F>,
    bucket: Seq<char>,
    token: Seq<char>,
    cause: Seq<char>,
    now: u128,
)
    requires
        proxy.has_fetcher(),
        proxy.is_dynamic(bucket),
    ensures
        proxy.complete_fetch(bucket, token, Err(cause), now) == (
            proxy,
            Err::<CosMapItemView, ProxyErrorView>(ProxyErrorView::FetchFailed(cause)),
        ),
{
}

/// Neither step changes the baseline or the fetcher, and both keep what
/// holds of every proxy.
pub proof fn law_steps_preserve_wf<F>(
    proxy: ProxyView<F>,
    bucket: Seq<char>,
    token: Seq<char>,
    fetched: Result<Seq<char>, Seq<char>>,
    now: u128,
)
    requires
        proxy.wf(),
    ensures
        ({
            let (after, _) = proxy.ensure_for(bucket, token, now);
            &&& after.wf()
            &&& after.baseline == proxy.baseline
            &&& after.fetcher == proxy.fetcher
        }),
        ({
            let (after, _) = proxy.complete_fetch(bucket, token, fetched, now);
            &&& after.wf()
            &&& after.baseline == proxy.baseline
            &&& after.fetcher == proxy.fetcher
        }),
{
}

} // verus!
