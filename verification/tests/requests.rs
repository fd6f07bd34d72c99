use search_cache::key::canonicalize_query;
use search_cache::model::{
    normalize_domains, AdvancedSearchSettings, ExcerptSettings, FetchPolicy, SearchMode,
    SearchRequest, SourcePolicy, TimeoutSeconds,
};
use search_cache::text::collapse_ws;

fn req(queries: &[&str]) -> SearchRequest {
    SearchRequest {
        search_queries: queries.iter().map(|q| (*q).to_string()).collect(),
        mode: Some(SearchMode::Turbo),
        ..SearchRequest::default()
    }
}

fn timeout(seconds: f64) -> TimeoutSeconds {
    TimeoutSeconds {
        bits: seconds.to_bits(),
        json: serde_json::to_string(&seconds).unwrap(),
    }
}

fn full() -> SearchRequest {
    SearchRequest {
        objective: Some("  Find \"New\"\tShoes ".to_string()),
        search_queries: vec![
            "Stock  apple".to_string(),
            "   ".to_string(),
            "nike".to_string(),
            "APPLE stock".to_string(),
        ],
        mode: Some(SearchMode::Fast),
        max_chars_total: Some(-7),
        session_id: Some("s".to_string()),
        client_model: Some(" GPT  x ".to_string()),
        advanced_settings: Some(AdvancedSearchSettings {
            source_policy: Some(SourcePolicy {
                include_domains: vec![
                    " B.com".to_string(),
                    "a.com".to_string(),
                    "".to_string(),
                    "b.com ".to_string(),
                ],
                exclude_domains: vec!["Z.org".to_string()],
                after_date: Some("2026-01-02".to_string()),
            }),
            fetch_policy: Some(FetchPolicy {
                max_age_seconds: Some(600),
                timeout_seconds: Some(timeout(2.5)),
                disable_cache_fallback: true,
            }),
            excerpt_settings: Some(ExcerptSettings {
                max_chars_per_result: Some(i64::MIN),
            }),
            location: Some(" US ".to_string()),
            max_results: Some(0),
        }),
    }
}

#[test]
fn cache_key_ignores_query_order_and_case() {
    let a = req(&["Nike Shoes", "stock price"]);
    let b = req(&["stock   price", "nike shoes"]);
    assert_eq!(a.cache_key(), b.cache_key());
}

#[test]
fn cache_key_ignores_token_order_in_queries() {
    let a = req(&["apple stock"]);
    let b = req(&["Stock   Apple"]);
    assert_eq!(a.cache_key(), b.cache_key());
    assert_eq!(canonicalize_query("stock apple"), "apple stock");
}

#[test]
fn cache_key_keeps_objective_word_order() {
    let mut a = req(&["apple"]);
    let mut b = req(&["apple"]);
    a.objective = Some("latest apple stock price".into());
    b.objective = Some("stock price latest apple".into());
    assert_ne!(a.cache_key(), b.cache_key());
}

#[test]
fn upstream_payload_keeps_original_query_order() {
    let mut search = req(&["stock apple"]);
    search.normalize_for_upstream(SearchMode::Turbo);
    assert_eq!(search.search_queries, vec!["stock apple"]);
}

#[test]
fn cache_key_ignores_session_id() {
    let mut a = req(&["nike"]);
    let mut b = req(&["nike"]);
    a.session_id = Some("user-1".into());
    b.session_id = Some("user-2".into());
    assert_eq!(a.cache_key(), b.cache_key());
}

#[test]
fn cache_key_changes_with_mode() {
    let mut a = req(&["nike"]);
    let mut b = req(&["nike"]);
    a.mode = Some(SearchMode::Turbo);
    b.mode = Some(SearchMode::Advanced);
    assert_ne!(a.cache_key(), b.cache_key());
}

#[test]
fn cache_key_changes_with_location() {
    let mut a = req(&["ev incentives"]);
    let mut b = req(&["ev incentives"]);
    a.advanced_settings = Some(AdvancedSearchSettings {
        location: Some("gb".into()),
        ..AdvancedSearchSettings::default()
    });
    b.advanced_settings = Some(AdvancedSearchSettings {
        location: Some("us".into()),
        ..AdvancedSearchSettings::default()
    });
    assert_ne!(a.cache_key(), b.cache_key());
}

#[test]
fn empty_objective_falls_back_to_queries() {
    let mut req = SearchRequest {
        objective: Some("  latest nvidia price  ".into()),
        search_queries: vec![],
        ..SearchRequest::default()
    };
    req.normalize_for_upstream(SearchMode::Turbo);
    assert_eq!(req.search_queries, vec!["latest nvidia price"]);
    assert_eq!(req.mode, Some(SearchMode::Turbo));
}

#[test]
fn session_id_is_not_sent_upstream() {
    let req = SearchRequest {
        search_queries: vec!["apple".into()],
        session_id: Some("session_secret".into()),
        mode: Some(SearchMode::Turbo),
        ..SearchRequest::default()
    };
    let json: serde_json::Value = serde_json::from_str(&req.upstream_payload()).unwrap();
    assert!(json.get("session_id").is_none());
    assert_eq!(json["search_queries"][0], "apple");
}

#[test]
fn modes_are_read_whatever_their_case() {
    assert_eq!(SearchMode::parse("turbo"), Ok(SearchMode::Turbo));
    assert_eq!(SearchMode::parse("\t FAST\u{2003}"), Ok(SearchMode::Fast));
    assert_eq!(SearchMode::parse("Basic"), Ok(SearchMode::Basic));
    assert_eq!(SearchMode::parse("advanced\n"), Ok(SearchMode::Advanced));
    assert_eq!(
        SearchMode::parse(" Slow É "),
        Err("invalid mode 'slow É'; expected turbo, fast, basic, or advanced".to_string())
    );
    assert_eq!(
        SearchMode::parse(""),
        Err("invalid mode ''; expected turbo, fast, basic, or advanced".to_string())
    );
    assert_eq!(SearchMode::default(), SearchMode::Advanced);
}

#[test]
fn mode_names_read_back() {
    for mode in [
        SearchMode::Turbo,
        SearchMode::Fast,
        SearchMode::Basic,
        SearchMode::Advanced,
    ] {
        assert_eq!(SearchMode::parse(&mode.name()), Ok(mode));
    }
}

#[test]
fn bags_are_sorted_small_words() {
    assert_eq!(canonicalize_query("  b\tA  c a "), "a a b c");
    assert_eq!(canonicalize_query(" \u{3000} "), "");
    assert_eq!(canonicalize_query("\u{10000} \u{ffff}"), "\u{ffff} \u{10000}");
    assert_eq!(canonicalize_query("É é"), "É é");
    assert_eq!(
        canonicalize_query(&canonicalize_query("z Y x")),
        canonicalize_query("z Y x")
    );
}

#[test]
fn domains_take_one_form() {
    let mut domains: Vec<String> = [" B.com", "a.com", "", "b.com\n", "  ", "A.COM"]
        .iter()
        .map(|d| d.to_string())
        .collect();
    normalize_domains(&mut domains);
    assert_eq!(domains, vec!["a.com", "b.com"]);
    let once = domains.clone();
    normalize_domains(&mut domains);
    assert_eq!(domains, once);
}

#[test]
fn white_space_is_collapsed() {
    assert_eq!(collapse_ws(" a \u{a0}b\r\n c "), "a b c");
    assert_eq!(collapse_ws("\u{85}"), "");
    assert_eq!(collapse_ws("a\u{200b}b"), "a\u{200b}b");
}

#[test]
fn requests_are_put_in_shape() {
    let mut request = full();
    request.normalize_for_upstream(SearchMode::Basic);
    assert_eq!(request.objective.as_deref(), Some("Find \"New\" Shoes"));
    assert_eq!(
        request.search_queries,
        vec!["Stock apple", "nike", "APPLE stock"]
    );
    assert_eq!(request.mode, Some(SearchMode::Fast));
    assert_eq!(request.client_model.as_deref(), Some(" GPT  x "));
    let settings = request.advanced_settings.clone().unwrap();
    assert_eq!(settings.location.as_deref(), Some("us"));
    let source = settings.source_policy.unwrap();
    assert_eq!(source.include_domains, vec!["a.com", "b.com"]);
    assert_eq!(source.exclude_domains, vec!["z.org"]);
    let first = request.upstream_payload();
    request.normalize_for_upstream(SearchMode::Advanced);
    assert_eq!(request.upstream_payload(), first);
}

#[test]
fn blank_parts_are_dropped() {
    let mut request = SearchRequest {
        objective: Some(" \t".to_string()),
        search_queries: vec![" ".to_string()],
        advanced_settings: Some(AdvancedSearchSettings {
            location: Some("  ".to_string()),
            ..AdvancedSearchSettings::default()
        }),
        ..SearchRequest::default()
    };
    request.normalize_for_upstream(SearchMode::Fast);
    assert_eq!(request.objective, None);
    assert!(request.search_queries.is_empty());
    assert_eq!(request.mode, Some(SearchMode::Fast));
    assert_eq!(request.advanced_settings.unwrap().location, None);
}

#[test]
fn canonical_key_has_this_text() {
    let text = full().canonical_key().to_json();
    assert_eq!(
        text,
        format!(
            "{}{}{}{}{}{}{}",
            "{\"objective\":\"find \\\"new\\\" shoes\",",
            "\"search_queries\":[\"apple stock\",\"nike\"],\"mode\":\"fast\",",
            "\"max_chars_total\":-7,\"client_model\":\"gpt x\",\"location\":\"us\",",
            "\"max_results\":0,\"max_chars_per_result\":-9223372036854775808,",
            "\"include_domains\":[\"a.com\",\"b.com\"],\"exclude_domains\":[\"z.org\"],",
            "\"after_date\":\"2026-01-02\",\"max_age_seconds\":600,",
            "\"timeout_seconds\":4612811918334230528,\"disable_cache_fallback\":true}",
        )
    );
    assert_eq!(
        full().cache_key(),
        blake3::hash(text.as_bytes()).to_hex().to_string()
    );
}

#[test]
fn empty_key_has_this_text() {
    let text = SearchRequest::default().canonical_key().to_json();
    assert_eq!(
        text,
        format!(
            "{}{}{}{}",
            "{\"objective\":null,\"search_queries\":[],\"mode\":null,\"max_chars_total\":null,",
            "\"client_model\":null,\"location\":null,\"max_results\":null,",
            "\"max_chars_per_result\":null,\"include_domains\":[],\"exclude_domains\":[],",
            "\"after_date\":null,\"max_age_seconds\":null,\"timeout_seconds\":null,\"disable_cache_fallback\":false}",
        )
    );
}

#[test]
fn keys_are_hexadecimal_digits() {
    let key = req(&["nike"]).cache_key();
    assert_eq!(key.len(), 64);
    assert!(key
        .chars()
        .all(|c| c.is_ascii_digit() || ('a'..='f').contains(&c)));
}

#[test]
fn keys_ignore_domain_order_and_case() {
    let with = |domains: &[&str]| {
        let mut r = req(&["nike"]);
        r.advanced_settings = Some(AdvancedSearchSettings {
            source_policy: Some(SourcePolicy {
                include_domains: domains.iter().map(|d| d.to_string()).collect(),
                ..SourcePolicy::default()
            }),
            ..AdvancedSearchSettings::default()
        });
        r.cache_key()
    };
    assert_eq!(with(&["a.com", "b.com"]), with(&["B.com ", "a.com", "A.com"]));
    assert_ne!(with(&["a.com"]), with(&["a.com", "b.com"]));
}

#[test]
fn keys_ignore_objective_case_and_spacing() {
    let mut a = req(&["x"]);
    let mut b = req(&["x"]);
    a.objective = Some("Latest   Apple".to_string());
    b.objective = Some(" latest apple ".to_string());
    assert_eq!(a.cache_key(), b.cache_key());
    a.objective = Some(" \n".to_string());
    b.objective = None;
    assert_eq!(a.cache_key(), b.cache_key());
}

#[test]
fn keys_ignore_case_of_model_and_location() {
    let with = |model: &str, location: &str| {
        let mut r = req(&["x"]);
        r.client_model = Some(model.to_string());
        r.advanced_settings = Some(AdvancedSearchSettings {
            location: Some(location.to_string()),
            ..AdvancedSearchSettings::default()
        });
        r.cache_key()
    };
    assert_eq!(with("GPT  four", " US"), with(" gpt four", "us\n"));
    assert_ne!(with("gpt four", "us"), with("gptfour", "us"));
    assert_eq!(with(" ", "\t"), req(&["x"]).cache_key());
}

#[test]
fn keys_tell_timeouts_apart() {
    let with = |seconds: f64| {
        let mut r = req(&["nike"]);
        r.advanced_settings = Some(AdvancedSearchSettings {
            fetch_policy: Some(FetchPolicy {
                timeout_seconds: Some(timeout(seconds)),
                ..FetchPolicy::default()
            }),
            ..AdvancedSearchSettings::default()
        });
        r.cache_key()
    };
    assert_ne!(with(1.0), with(1.5));
    assert_eq!(with(1.5), with(1.5));
}

#[test]
fn keys_do_not_change_when_requests_are_put_in_shape() {
    let before = full().cache_key();
    let mut request = full();
    request.normalize_for_upstream(SearchMode::Basic);
    assert_eq!(request.cache_key(), before);

    let mut blank = req(&[" "]);
    blank.objective = Some("\t".to_string());
    let before = blank.cache_key();
    blank.normalize_for_upstream(SearchMode::Basic);
    assert_eq!(blank.cache_key(), before);
}

#[test]
fn payload_has_this_text() {
    assert_eq!(
        full().upstream_payload(),
        format!(
            "{}{}{}{}{}{}",
            "{\"objective\":\"  Find \\\"New\\\"\\tShoes \",",
            "\"search_queries\":[\"Stock  apple\",\"   \",\"nike\",\"APPLE stock\"],",
            "\"mode\":\"fast\",\"max_chars_total\":-7,\"client_model\":\" GPT  x \",",
            "\"advanced_settings\":{\"source_policy\":{\"include_domains\":[\" B.com\",\"a.com\",\"\",\"b.com \"],\"exclude_domains\":[\"Z.org\"],\"after_date\":\"2026-01-02\"},",
            "\"fetch_policy\":{\"max_age_seconds\":600,\"timeout_seconds\":2.5,\"disable_cache_fallback\":true},",
            "\"excerpt_settings\":{\"max_chars_per_result\":-9223372036854775808},\"location\":\" US \",\"max_results\":0}}",
        )
    );
    assert_eq!(
        SearchRequest::default().upstream_payload(),
        "{\"search_queries\":[]}"
    );
    assert_eq!(FetchPolicy::default().to_json(), "{}");
    assert_eq!(SourcePolicy::default().to_json(), "{}");
    assert_eq!(ExcerptSettings::default().to_json(), "{}");
    assert_eq!(AdvancedSearchSettings::default().to_json(), "{}");
}

#[test]
fn strings_are_escaped_in_json() {
    let mut all: String = (0u32..0x100).filter_map(char::from_u32).collect();
    all.push_str("\u{2028}\u{10ffff}/");
    let request = SearchRequest {
        search_queries: vec![all.clone()],
        ..SearchRequest::default()
    };
    let text = request.upstream_payload();
    assert!(text.contains("\\u0000\\u0001"));
    assert!(text.contains("\\b\\t\\n\\u000b\\f\\r\\u000e"));
    assert!(text.contains("\\u001f !\\\"#"));
    assert!(text.contains("[\\\\]"));
    assert!(text.contains("\u{7f}\u{80}"));
    let value: serde_json::Value = serde_json::from_str(&text).unwrap();
    assert_eq!(value["search_queries"][0].as_str(), Some(all.as_str()));
}
