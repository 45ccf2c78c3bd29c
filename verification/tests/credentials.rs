use bucket_creds::credentials::models::{BucketCredential, CredentialError};

#[test]
fn parse_reads_an_hmac_pair() {
    assert_eq!(
        BucketCredential::parse("hmac:AKID:SECRET"),
        Ok(BucketCredential::Hmac {
            access_key: "AKID".to_string(),
            secret_key: "SECRET".to_string(),
        })
    );
}

#[test]
fn parse_keeps_later_colons_in_the_secret_key() {
    assert_eq!(
        BucketCredential::parse("hmac:A:B:C"),
        Ok(BucketCredential::Hmac {
            access_key: "A".to_string(),
            secret_key: "B:C".to_string(),
        })
    );
}

#[test]
fn parse_takes_an_untagged_payload_as_api_key() {
    assert_eq!(
        BucketCredential::parse("k3y-0123"),
        Ok(BucketCredential::ApiKey("k3y-0123".to_string()))
    );
}

#[test]
fn parse_takes_a_payload_with_another_tag_as_api_key() {
    assert_eq!(
        BucketCredential::parse("hmac"),
        Ok(BucketCredential::ApiKey("hmac".to_string()))
    );
    assert_eq!(
        BucketCredential::parse("HMAC:A:B"),
        Ok(BucketCredential::ApiKey("HMAC:A:B".to_string()))
    );
    assert_eq!(
        BucketCredential::parse("apikey:abc"),
        Ok(BucketCredential::ApiKey("apikey:abc".to_string()))
    );
}

#[test]
fn parse_counts_characters_not_bytes() {
    assert_eq!(
        BucketCredential::parse("hmac:clé:sécrèt→ü"),
        Ok(BucketCredential::Hmac {
            access_key: "clé".to_string(),
            secret_key: "sécrèt→ü".to_string(),
        })
    );
    assert_eq!(
        BucketCredential::parse("ключ"),
        Ok(BucketCredential::ApiKey("ключ".to_string()))
    );
}

#[test]
fn parse_rejects_an_empty_payload() {
    assert_eq!(BucketCredential::parse(""), Err(CredentialError::EmptyPayload));
}

#[test]
fn parse_rejects_an_hmac_payload_without_separator() {
    assert_eq!(
        BucketCredential::parse("hmac:"),
        Err(CredentialError::MissingSeparator)
    );
    assert_eq!(
        BucketCredential::parse("hmac:AKID"),
        Err(CredentialError::MissingSeparator)
    );
}

#[test]
fn parse_rejects_an_empty_access_key() {
    assert_eq!(
        BucketCredential::parse("hmac::SECRET"),
        Err(CredentialError::EmptyAccessKey)
    );
    assert_eq!(
        BucketCredential::parse("hmac::"),
        Err(CredentialError::EmptyAccessKey)
    );
}

#[test]
fn parse_rejects_an_empty_secret_key() {
    assert_eq!(
        BucketCredential::parse("hmac:AKID:"),
        Err(CredentialError::EmptySecretKey)
    );
}

#[test]
fn parse_accepts_the_shortest_hmac_pair() {
    assert_eq!(
        BucketCredential::parse("hmac:a:s"),
        Ok(BucketCredential::Hmac {
            access_key: "a".to_string(),
            secret_key: "s".to_string(),
        })
    );
}
