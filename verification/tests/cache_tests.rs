use base64::prelude::BASE64_URL_SAFE_NO_PAD;
use base64::Engine;
use sha2::{Digest, Sha256};

use klamer_dev::cache::{
    cached_cert_file_name, cert_from_payload, AcmeS3Cache, MemoryCertCache, NoAccountAcmeS3Cache,
};

fn expected_file_name(domains: &[&str], directory_url: &str) -> String {
    let mut ctx = Sha256::new();
    for domain in domains {
        ctx.update(domain.as_bytes());
        ctx.update(&[0]);
    }
    ctx.update(directory_url.as_bytes());
    let hash = BASE64_URL_SAFE_NO_PAD.encode(ctx.finalize());
    format!("cached_cert_{}", hash)
}

#[test]
fn cache_key_matches_digest_and_encoding() {
    let domains = vec!["klamer.dev".to_string(), "www.klamer.dev".to_string()];
    let url = "https://acme-v02.api.letsencrypt.org/directory";
    let got = cached_cert_file_name(&domains, url);
    let want = expected_file_name(&["klamer.dev", "www.klamer.dev"], url);
    assert_eq!(got, want);
}

#[test]
fn cache_key_deterministic() {
    let domains = vec!["a.example".to_string(), "b.example".to_string()];
    let url = "https://dir.example/";
    assert_eq!(
        cached_cert_file_name(&domains, url),
        cached_cert_file_name(&domains, url)
    );
}

#[test]
fn cache_key_order_sensitive() {
    let url = "https://dir.example/";
    let forward = vec!["a.example".to_string(), "b.example".to_string()];
    let backward = vec!["b.example".to_string(), "a.example".to_string()];
    assert_ne!(
        cached_cert_file_name(&forward, url),
        cached_cert_file_name(&backward, url)
    );
}

#[test]
fn object_key_prefixes_file_name() {
    let cache = AcmeS3Cache::new("my-bucket".to_string(), "certs".to_string());
    assert_eq!(cache.bucket, "my-bucket");
    assert_eq!(cache.prefix, "certs");
    let domains = vec!["klamer.dev".to_string()];
    let url = "https://dir.example/";
    let key = cache.object_key(&domains, url);
    let file = cached_cert_file_name(&domains, url);
    assert_eq!(key, format!("certs/{}", file));
}

#[test]
fn memory_cache_round_trip() {
    let mut cache = MemoryCertCache::new();
    let key = "cached_cert_abc".to_string();
    let payload = vec![1u8, 2, 3, 4];
    cache.store(key.clone(), payload.clone());
    assert_eq!(cache.load(&key), Some(payload));
}

#[test]
fn memory_cache_miss_is_absent() {
    let cache = MemoryCertCache::new();
    assert_eq!(cache.load("never-stored"), None);
}

#[test]
fn memory_cache_empty_payload_is_absent() {
    let mut cache = MemoryCertCache::new();
    let key = "cached_cert_empty".to_string();
    cache.store(key.clone(), Vec::new());
    assert_eq!(cache.load(&key), None);
}

#[test]
fn memory_cache_overwrite_last_writer_wins() {
    let mut cache = MemoryCertCache::new();
    let key = "cached_cert_abc".to_string();
    cache.store(key.clone(), vec![1u8]);
    cache.store(key.clone(), vec![2u8, 3]);
    assert_eq!(cache.load(&key), Some(vec![2u8, 3]));
}

#[test]
fn payload_interpretation() {
    assert_eq!(cert_from_payload(Vec::new()), None);
    assert_eq!(cert_from_payload(vec![9u8]), Some(vec![9u8]));
}

#[test]
fn no_account_cache_loads_absent_and_stores_ok() {
    let cache = NoAccountAcmeS3Cache;
    let contact = vec!["mailto:admin@klamer.dev".to_string()];
    let url = "https://dir.example/";
    let loaded = cache.load_account(&contact, url);
    assert!(matches!(loaded, Ok(None)));
    let stored = cache.store_account(&contact, url, &vec![1u8, 2]);
    assert!(stored.is_ok());
}
