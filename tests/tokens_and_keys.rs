use github_app_proxy::keys::{decode_private_key, normalize_private_key, KeyError};
use github_app_proxy::token_cache::{TokenCache, TOKEN_TTL_MILLIS};

#[test]
fn empty_cache_misses() {
    let c = TokenCache::new();
    assert_eq!(c.valid_token(0), None);
}

#[test]
fn token_reused_within_lifetime() {
    let mut c = TokenCache::new();
    let mut fetches = 0;
    let mut get = |c: &mut TokenCache, now: u64| -> String {
        match c.valid_token(now) {
            Some(t) => t,
            None => {
                fetches += 1;
                c.store(format!("tok{}", fetches), now)
            }
        }
    };
    let a = get(&mut c, 1_000);
    let b = get(&mut c, 1_000 + TOKEN_TTL_MILLIS - 1);
    assert_eq!(a, "tok1");
    assert_eq!(a, b);
    drop(get);
    assert_eq!(fetches, 1);
}

#[test]
fn token_refreshed_after_expiry() {
    let mut c = TokenCache::new();
    assert_eq!(c.store("old".to_string(), 0), "old");
    assert_eq!(c.valid_token(TOKEN_TTL_MILLIS - 1).as_deref(), Some("old"));
    assert_eq!(c.valid_token(TOKEN_TTL_MILLIS), None);
    assert_eq!(c.store("new".to_string(), TOKEN_TTL_MILLIS), "new");
    assert_eq!(c.valid_token(TOKEN_TTL_MILLIS).as_deref(), Some("new"));
}

#[test]
fn racing_store_keeps_valid_token() {
    let mut c = TokenCache::new();
    assert_eq!(c.store("first".to_string(), 10), "first");
    // a second fetcher that raced on the same miss gets the installed token
    assert_eq!(c.store("second".to_string(), 20), "first");
    assert_eq!(c.valid_token(20).as_deref(), Some("first"));
}

#[test]
fn ttl_is_one_hour() {
    assert_eq!(TOKEN_TTL_MILLIS, 3_600_000);
}

#[test]
fn escaped_newlines_unescaped() {
    assert_eq!(normalize_private_key("a\\nb\\n".to_string()), "a\nb\n");
    assert_eq!(normalize_private_key("a\\\\nb".to_string()), "a\\\nb");
    assert_eq!(normalize_private_key("plain".to_string()), "plain");
}

#[test]
fn real_newlines_left_alone() {
    assert_eq!(normalize_private_key("a\nb\\n".to_string()), "a\nb\\n");
}

#[test]
fn key_decoded_and_normalized() {
    let k = decode_private_key("  LS0tLS1CRUdJTiBLRVktLS0tLVxuYWJjXG4tLS0tLUVORCBLRVktLS0tLQ==\n")
        .unwrap();
    assert_eq!(k, "-----BEGIN KEY-----\nabc\n-----END KEY-----");
    assert_eq!(decode_private_key("bGluZTEKbGluZTJcbg==").unwrap(), "line1\nline2\\n");
}

#[test]
fn key_errors() {
    assert_eq!(decode_private_key("not base64!"), Err(KeyError::NotBase64));
    assert_eq!(decode_private_key("//4="), Err(KeyError::NotUtf8));
}
