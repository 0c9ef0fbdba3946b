use yubico_ng::config::{Config, ProxyMode, SyncLevel, Timeout};
use yubico_ng::request::canonical_string;

#[test]
fn custom_sync_level_saturates_at_secure() {
    assert_eq!(SyncLevel::custom(150), SyncLevel::custom(100));
    assert_eq!(SyncLevel::custom(100), SyncLevel::secure());
    assert_eq!(SyncLevel::custom(150).level(), 100);
}

#[test]
fn sync_level_presets() {
    assert_eq!(SyncLevel::fast(), SyncLevel::custom(0));
    assert_eq!(SyncLevel::fast().level(), 0);
    assert_eq!(SyncLevel::custom(42).level(), 42);
    assert_eq!(SyncLevel::custom(101).level(), 100);
    assert_eq!(SyncLevel::custom(255).level(), 100);
}

#[test]
fn default_config_values() {
    let c = Config::default();
    assert!(c.client_id.is_empty());
    assert!(c.key.is_empty());
    assert_eq!(c.api_hosts, vec!["https://api.yubico.com/wsapi/2.0/verify".to_string()]);
    assert_eq!(c.user_agent, "github.com/BlackDex/yubico-rs");
    assert_eq!(c.sync_level, SyncLevel::secure());
    assert_eq!(c.request_timeout, Timeout::from_secs(30));
    assert_eq!(c.request_timeout, Timeout { secs: 30, nanos: 0 });
    assert!(c.proxy_url.is_empty());
    assert!(c.proxy_username.is_empty());
    assert!(c.proxy_password.is_empty());
}

#[test]
fn setters_store_their_values() {
    let c = Config::default()
        .set_client_id("42".to_string())
        .set_key("c2VjcmV0".to_string())
        .set_api_hosts(vec!["https://a".to_string(), "https://b".to_string()])
        .set_user_agent("agent".to_string())
        .set_sync_level(SyncLevel::fast())
        .set_request_timeout(Timeout::from_parts(5, 250_000_000))
        .set_proxy_url("http://proxy:3128".to_string())
        .set_proxy_username("user".to_string())
        .set_proxy_password("pass".to_string());
    assert_eq!(c.client_id, "42");
    assert_eq!(c.key, b"c2VjcmV0".to_vec());
    assert_eq!(c.api_hosts.len(), 2);
    assert_eq!(c.user_agent, "agent");
    assert_eq!(c.sync_level, SyncLevel::fast());
    assert_eq!(c.request_timeout, Timeout { secs: 5, nanos: 250_000_000 });
    assert_eq!(c.proxy_url, "http://proxy:3128");
    assert_eq!(c.proxy_username, "user");
    assert_eq!(c.proxy_password, "pass");
}

#[test]
fn canonical_string_ignores_setter_order() {
    let a = Config::default()
        .set_client_id("42".to_string())
        .set_sync_level(SyncLevel::custom(50))
        .set_key("c2VjcmV0".to_string());
    let b = Config::default()
        .set_key("c2VjcmV0".to_string())
        .set_sync_level(SyncLevel::custom(50))
        .set_client_id("42".to_string());
    let otp = b"cccjgjgkhcbb";
    let nonce = b"abcdefghij0123456789";
    let ca = canonical_string(a.client_id.as_bytes(), otp, nonce, a.sync_level);
    let cb = canonical_string(b.client_id.as_bytes(), otp, nonce, b.sync_level);
    assert_eq!(ca, cb);
    assert_eq!(ca, b"id=42&nonce=abcdefghij0123456789&otp=cccjgjgkhcbb&sl=50".to_vec());
}

#[test]
fn proxy_mode_follows_url_and_username() {
    let c = Config::default();
    assert_eq!(c.proxy_mode(), ProxyMode::Direct);
    let c = c.set_proxy_username("user".to_string());
    assert_eq!(c.proxy_mode(), ProxyMode::Direct);
    let c = Config::default().set_proxy_url("http://proxy:3128".to_string());
    assert_eq!(c.proxy_mode(), ProxyMode::Proxy);
    let c = c.set_proxy_username("user".to_string()).set_proxy_password("pass".to_string());
    assert_eq!(c.proxy_mode(), ProxyMode::ProxyWithAuth);
}
