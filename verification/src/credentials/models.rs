use vstd::prelude::*;
use vstd::string::StrSliceExecFns;

verus! {

/// A decoded credential payload: one of the two shapes of a credential.
#[derive(Debug, PartialEq, Eq)]
pub enum BucketCredential {
    /// An HMAC key pair.
    Hmac { access_key: String, secret_key: String },
    /// A single API key.
    ApiKey(String),
}

/// Mathematical model of a [`BucketCredential`].
pub enum BucketCredentialView {
    Hmac { access_key: Seq<char>, secret_key: Seq<char> },
    ApiKey(Seq<char>),
}

impl View for BucketCredential {
    type V = BucketCredentialView;

    open spec fn view(&self) -> BucketCredentialView {
        match self {
            BucketCredential::Hmac { access_key, secret_key } => BucketCredentialView::Hmac {
                access_key: access_key@,
                secret_key: secret_key@,
            },
            BucketCredential::ApiKey(key) => BucketCredentialView::ApiKey(key@),
        }
    }
}

/// Why a payload is not a credential.
#[derive(Debug, Clone, Copy, PartialEq, Eq, Structural)]
pub enum CredentialError {
    /// The payload has no characters.
    EmptyPayload,
    /// The payload is tagged as an HMAC pair but no `:` follows the access key.
    MissingSeparator,
    /// The payload is tagged as an HMAC pair and nothing stands before the separator.
    EmptyAccessKey,
    /// The payload is tagged as an HMAC pair and nothing stands after the separator.
    EmptySecretKey,
}

/// The characters that open the payload of an HMAC pair: `hmac:`.
pub open spec fn hmac_tag() -> Seq<char> {
    seq!['h', 'm', 'a', 'c', ':']
}

/// `c` occurs in `s` at `i` and nowhere before.
pub open spec fn is_first_at(s: Seq<char>, c: char, i: int) -> bool {
    &&& 0 <= i < s.len()
    &&& s[i] == c
    &&& forall|j: int| 0 <= j < i ==> s[j] != c
}

/// The position of the first `c` in `s`; meaningful where `s` contains `c`.
pub open spec fn first_at(s: Seq<char>, c: char) -> int {
    choose|i: int| is_first_at(s, c, i)
}

/// What a payload decodes to.
///
/// A payload that opens with the five characters `hmac:` is an HMAC pair:
/// the access key runs up to the next `:`, the secret key is all that follows
/// it, and neither may be empty. Any other payload is an API key, taken
/// whole, unless it is empty.
pub open spec fn decode(raw: Seq<char>) -> Result<BucketCredentialView, CredentialError> {
    if raw.len() == 0 {
        Err(CredentialError::EmptyPayload)
    } else if !hmac_tag().is_prefix_of(raw) {
        Ok(BucketCredentialView::ApiKey(raw))
    } else {
        let body = raw.skip(5);
        if !body.contains(':') {
            Err(CredentialError::MissingSeparator)
        } else {
            let at = first_at(body, ':');
            if at == 0 {
                Err(CredentialError::EmptyAccessKey)
            } else if at + 1 == body.len() {
                Err(CredentialError::EmptySecretKey)
            } else {
                Ok(
                    BucketCredentialView::Hmac {
                        access_key: body.take(at),
                        secret_key: body.skip(at + 1),
                    },
                )
            }
        }
    }
}

/// Model of the outcome of a decoding.
pub open spec fn decoded_view(r: Result<BucketCredential, CredentialError>) -> Result<
    BucketCredentialView,
    CredentialError,
> {
    match r {
        Ok(credential) => Ok(credential@),
        Err(e) => Err(e),
    }
}

/// The first occurrence of a character is unique.
pub proof fn lemma_first_at_unique(s: Seq<char>, c: char, i: int)
    requires
        is_first_at(s, c, i),
    ensures
        s.contains(c),
        first_at(s, c) == i,
{
    let k = first_at(s, c);
    assert(is_first_at(s, c, k));
    if k < i {
        assert(s[k] != c);
    } else if i < k {
        assert(s[i] != c);
    }
}

/// A character that occurs at `i` has a first occurrence.
proof fn lemma_first_at_exists_upto(s: Seq<char>, c: char, i: int)
    requires
        0 <= i < s.len(),
        s[i] == c,
    ensures
        exists|k: int| is_first_at(s, c, k),
    decreases i,
{
    if forall|j: int| 0 <= j < i ==> s[j] != c {
        assert(is_first_at(s, c, i));
    } else {
        let j = choose|j: int| 0 <= j < i && s[j] == c;
        lemma_first_at_exists_upto(s, c, j);
    }
}

/// Where a character occurs, `first_at` is its first occurrence.
pub proof fn lemma_first_at_is_first(s: Seq<char>, c: char)
    requires
        s.contains(c),
    ensures
        is_first_at(s, c, first_at(s, c)),
{
    let i = choose|i: int| 0 <= i < s.len() && s[i] == c;
    lemma_first_at_exists_upto(s, c, i);
}

/// A payload decodes to an HMAC pair exactly when it is `hmac:`, a non-empty
/// access key without `:`, one `:`, and a non-empty secret key; the pair is
/// then made of these two keys.
pub proof fn lemma_decode_hmac(raw: Seq<char>, access_key: Seq<char>, secret_key: Seq<char>)
    ensures
        decode(raw) == Ok::<BucketCredentialView, CredentialError>(
            BucketCredentialView::Hmac { access_key, secret_key },
        ) <==> ({
            &&& raw == hmac_tag() + access_key + seq![':'] + secret_key
            &&& access_key.len() > 0
            &&& !access_key.contains(':')
            &&& secret_key.len() > 0
        }),
{
    let tag = hmac_tag();
    let composed = tag + access_key + seq![':'] + secret_key;
    let n = access_key.len() as int;
    if raw == composed && n > 0 && !access_key.contains(':') && secret_key.len() > 0 {
        assert(tag =~= raw.subrange(0, 5));
        let body = raw.skip(5);
        assert(body =~= access_key + seq![':'] + secret_key);
        assert(body[n] == ':');
        assert forall|j: int| 0 <= j < n implies body[j] != ':' by {
            assert(body[j] == access_key[j]);
        }
        lemma_first_at_unique(body, ':', n);
        assert(body.take(n) =~= access_key);
        assert(body.skip(n + 1) =~= secret_key);
    }
    if decode(raw) == Ok::<BucketCredentialView, CredentialError>(
        BucketCredentialView::Hmac { access_key, secret_key },
    ) {
        let body = raw.skip(5);
        let at = first_at(body, ':');
        lemma_first_at_is_first(body, ':');
        assert(access_key == body.take(at));
        assert(secret_key == body.skip(at + 1));
        assert(tag =~= raw.subrange(0, 5));
        assert(raw =~= composed);
        if access_key.contains(':') {
            let j = choose|j: int| 0 <= j < access_key.len() && access_key[j] == ':';
            assert(body[j] == ':');
        }
    }
}

/// A payload decodes to an API key exactly when it is not empty and does not
/// open with `hmac:`; the key is then the whole payload.
pub proof fn lemma_decode_api_key(raw: Seq<char>, key: Seq<char>)
    ensures
        decode(raw) == Ok::<BucketCredentialView, CredentialError>(
            BucketCredentialView::ApiKey(key),
        ) <==> key == raw && raw.len() > 0 && !hmac_tag().is_prefix_of(raw),
{
}

/// Whether the payload opens with `hmac:`.
fn starts_with_tag(raw: &str, len: usize) -> (b: bool)
    requires
        len == raw@.len(),
    ensures
        b == hmac_tag().is_prefix_of(raw@),
{
    if len < 5 {
        return false;
    }
    let b = raw.get_char(0) == 'h' && raw.get_char(1) == 'm' && raw.get_char(2) == 'a'
        && raw.get_char(3) == 'c' && raw.get_char(4) == ':';
    proof {
        let tag = hmac_tag();
        let head = raw@.subrange(0, 5);
        if b {
            assert(tag =~= head);
        } else {
            assert(tag[0] == 'h' && tag[1] == 'm' && tag[2] == 'a' && tag[3] == 'c' && tag[4]
                == ':');
            assert(head[0] == raw@[0] && head[1] == raw@[1] && head[2] == raw@[2] && head[3]
                == raw@[3] && head[4] == raw@[4]);
        }
    }
    b
}

impl BucketCredential {
    /// Decodes a raw payload: `hmac:<access key>:<secret key>` is an HMAC
    /// pair, any other payload that is not empty is an API key.
    pub fn parse(raw: &str) -> (r: Result<BucketCredential, CredentialError>)
        ensures
            decoded_view(r) == decode(raw@),
    {
        let len = raw.unicode_len();
        if len == 0 {
            return Err(CredentialError::EmptyPayload);
        }
        if !starts_with_tag(raw, len) {
            return Ok(BucketCredential::ApiKey(raw.to_owned()));
        }
        let ghost body = raw@.skip(5);
        let mut pos: usize = 0;
        for c in it: raw.chars()
            invariant
                it.seq() == raw@,
                pos == it.index(),
                len == raw@.len(),
                5 <= len,
                hmac_tag().is_prefix_of(raw@),
                body == raw@.skip(5),
                forall|j: int| 5 <= j < pos ==> raw@[j] != ':',
        {
            if pos >= 5 && c == ':' {
                proof {
                    assert forall|j: int| 0 <= j < pos - 5 implies body[j] != ':' by {
                        assert(body[j] == raw@[j + 5]);
                    }
                    assert(body[pos - 5] == raw@[pos as int]);
                    lemma_first_at_unique(body, ':', pos - 5);
                }
                if pos == 5 {
                    return Err(CredentialError::EmptyAccessKey);
                }
                if pos + 1 == len {
                    return Err(CredentialError::EmptySecretKey);
                }
                let access_key = raw.substring_char(5, pos).to_owned();
                let secret_key = raw.substring_char(pos + 1, len).to_owned();
                proof {
                    assert(access_key@ =~= body.take(pos - 5));
                    assert(secret_key@ =~= body.skip(pos - 5 + 1));
                }
                return Ok(BucketCredential::Hmac { access_key, secret_key });
            }
            pos = pos + 1;
        }
        proof {
            assert forall|j: int| 0 <= j < body.len() implies body[j] != ':' by {
                assert(body[j] == raw@[j + 5]);
            }
        }
        Err(CredentialError::MissingSeparator)
    }
}

} // verus!
