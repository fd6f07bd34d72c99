use search_cache::cache::TimeSpan;
use search_cache::config::{worker_threads, CdnCacheMode, Config, EnvVars};
use search_cache::model::SearchMode;

fn text(s: &str) -> Option<String> {
    Some(s.to_string())
}

fn vars() -> EnvVars {
    EnvVars {
        host: None,
        port: None,
        parallel_api_key: text("secret"),
        parallel_base_url: None,
        default_mode: None,
        cache_ttl_secs: None,
        cache_ttl_volatile_secs: None,
        cache_max_bytes: None,
        request_timeout_secs: None,
        search_api_key: None,
        cdn_cache: None,
    }
}

fn refused(vars: EnvVars) -> String {
    match Config::from_env(vars) {
        Ok(_) => panic!("the settings were taken"),
        Err(e) => e,
    }
}

#[test]
fn settings_have_defaults() {
    let config = Config::from_env(vars()).unwrap();
    assert_eq!(config.bind, "0.0.0.0:8080");
    assert_eq!(config.parallel_api_key, "secret");
    assert_eq!(config.parallel_base_url, "https://api.parallel.ai");
    assert_eq!(config.default_mode, SearchMode::Turbo);
    assert_eq!(config.cache_ttl, TimeSpan::from_secs(300));
    assert_eq!(config.cache_ttl_volatile, TimeSpan::from_secs(120));
    assert_eq!(config.cache_max_bytes, 268_435_456);
    assert_eq!(config.search_api_key, None);
    assert_eq!(config.request_timeout, TimeSpan::from_secs(30));
    assert_eq!(config.cdn_cache, CdnCacheMode::Public);
}

#[test]
fn settings_are_read() {
    let config = Config::from_env(EnvVars {
        host: text("127.0.0.1"),
        port: text("http"),
        parallel_api_key: text("k"),
        parallel_base_url: text("http://up/"),
        default_mode: text(" Basic"),
        cache_ttl_secs: text("60"),
        cache_ttl_volatile_secs: text("61"),
        cache_max_bytes: text("0"),
        request_timeout_secs: text("+5"),
        search_api_key: text("mine"),
        cdn_cache: text(" No-Store "),
    })
    .unwrap();
    assert_eq!(config.bind, "127.0.0.1:http");
    assert_eq!(config.parallel_base_url, "http://up/");
    assert_eq!(config.default_mode, SearchMode::Basic);
    assert_eq!(config.cache_ttl.as_secs(), 60);
    assert_eq!(config.cache_ttl_volatile.as_secs(), 60);
    assert_eq!(config.cache_max_bytes, 0);
    assert_eq!(config.search_api_key.as_deref(), Some("mine"));
    assert_eq!(config.request_timeout.as_secs(), 5);
    assert_eq!(config.cdn_cache, CdnCacheMode::Off);
}

#[test]
fn answers_behind_a_key_are_private_unless_said_otherwise() {
    let keyed = EnvVars { search_api_key: text("k"), ..vars() };
    assert_eq!(Config::from_env(keyed).unwrap().cdn_cache, CdnCacheMode::Private);
    let open = EnvVars { search_api_key: text(""), ..vars() };
    let config = Config::from_env(open).unwrap();
    assert_eq!(config.cdn_cache, CdnCacheMode::Public);
    assert_eq!(config.search_api_key, None);
    let both = EnvVars { search_api_key: text("k"), cdn_cache: text("public"), ..vars() };
    assert_eq!(Config::from_env(both).unwrap().cdn_cache, CdnCacheMode::Public);
}

#[test]
fn wrong_settings_are_refused() {
    let key = "PARALLEL_API_KEY is required";
    assert_eq!(refused(EnvVars { parallel_api_key: None, ..vars() }), key);
    assert_eq!(refused(EnvVars { parallel_api_key: text(""), ..vars() }), key);
    assert_eq!(
        refused(EnvVars { default_mode: text("x"), ..vars() }),
        "invalid mode 'x'; expected turbo, fast, basic, or advanced"
    );
    assert_eq!(
        refused(EnvVars { cache_ttl_secs: text("-1"), ..vars() }),
        "CACHE_TTL_SECS must be a positive integer"
    );
    assert_eq!(
        refused(EnvVars { cache_ttl_volatile_secs: text(""), ..vars() }),
        "CACHE_TTL_VOLATILE_SECS must be a positive integer"
    );
    assert_eq!(
        refused(EnvVars { cache_max_bytes: text("1k"), ..vars() }),
        "CACHE_MAX_BYTES must be a positive integer"
    );
    assert_eq!(
        refused(EnvVars { request_timeout_secs: text("18446744073709551616"), ..vars() }),
        "REQUEST_TIMEOUT_SECS must be a positive integer"
    );
    assert_eq!(
        refused(EnvVars { cdn_cache: text(" Maybe "), ..vars() }),
        "invalid CDN_CACHE 'maybe'; expected public, private, or off"
    );
}

#[test]
fn the_first_wrong_setting_is_named() {
    let all = || EnvVars {
        default_mode: text("x"),
        cache_ttl_secs: text("x"),
        cache_ttl_volatile_secs: text("x"),
        cache_max_bytes: text("x"),
        request_timeout_secs: text("x"),
        cdn_cache: text("x"),
        ..vars()
    };
    assert!(refused(EnvVars { parallel_api_key: None, ..all() }).starts_with("PARALLEL_API_KEY"));
    assert!(refused(all()).starts_with("invalid mode"));
    assert!(refused(EnvVars { default_mode: None, ..all() }).starts_with("CACHE_TTL_SECS"));
}

#[test]
fn cdn_modes_are_read() {
    assert_eq!(CdnCacheMode::parse("PUBLIC"), Ok(CdnCacheMode::Public));
    assert_eq!(CdnCacheMode::parse(" private\n"), Ok(CdnCacheMode::Private));
    assert_eq!(CdnCacheMode::parse("off"), Ok(CdnCacheMode::Off));
    assert_eq!(CdnCacheMode::parse("no-store"), Ok(CdnCacheMode::Off));
    assert_eq!(
        CdnCacheMode::parse("On"),
        Err("invalid CDN_CACHE 'on'; expected public, private, or off".to_string())
    );
}

#[test]
fn threads_default_to_four() {
    assert_eq!(worker_threads(None), 4);
    assert_eq!(worker_threads(text("many")), 4);
    assert_eq!(worker_threads(text("16")), 16);
    assert_eq!(worker_threads(text("0")), 0);
}
