use std::time::{Duration, Instant};

use search_cache::cache::{after_fetch, after_lookup, CachedSearch, LookupStep, TimeSpan};
use search_cache::config::CdnCacheMode;
use search_cache::handlers::{
    begin_search, empty_error, finish_search, finish_search_at, health, missing_state,
    render_bad_request, render_parallel_error, render_upstream_error, require_key, serve_entry,
    Counter, HealthReport, SearchStep,
};
use search_cache::model::{SearchMode, SearchRequest};
use search_cache::parallel::ParallelError;
use search_cache::query::{
    parse_get_request, parse_search_request, Incoming, RepeatedQuery, SearchQuery,
};
use search_cache::reply::{cache_control_text, has_tag, label_of, sendable, Reply, ReplyBody};

fn list(items: &[&str]) -> Vec<String> {
    items.iter().map(|s| s.to_string()).collect()
}

fn text(s: &str) -> Option<String> {
    Some(s.to_string())
}

fn query() -> SearchQuery {
    SearchQuery {
        objective: None,
        search_queries: vec![],
        mode: None,
        max_chars_total: None,
        session_id: None,
        client_model: None,
        location: None,
        max_results: None,
        max_chars_per_result: None,
        max_age_seconds: None,
        after_date: None,
        include_domains: vec![],
        exclude_domains: vec![],
    }
}

fn repeated() -> RepeatedQuery {
    RepeatedQuery {
        q: vec![],
        search_queries: vec![],
        include_domains: vec![],
        exclude_domains: vec![],
    }
}

fn json<'a>(reply: &'a Reply<'a>) -> &'a str {
    match &reply.body {
        ReplyBody::Json(text) => text,
        _ => panic!("the reply has no JSON text"),
    }
}

fn refusal(step: SearchStep) -> (u16, Option<String>, String) {
    match step {
        SearchStep::Refuse(reply) => {
            let body = json(&reply).to_string();
            (reply.status, reply.cache_control, body)
        }
        SearchStep::Fetch { .. } => panic!("the search was not refused"),
    }
}

fn fetch(step: SearchStep) -> (String, SearchRequest) {
    match step {
        SearchStep::Fetch { key, request } => (key, request),
        SearchStep::Refuse(_) => panic!("the search was refused"),
    }
}

#[test]
fn repeated_names_make_a_request() {
    let r = parse_get_request(
        query(),
        RepeatedQuery {
            q: list(&["a", "b"]),
            search_queries: list(&["c"]),
            include_domains: list(&["i"]),
            exclude_domains: list(&["e"]),
        },
    )
    .unwrap();
    assert_eq!(r.search_queries, list(&["a", "b", "c"]));
    let source = r.advanced_settings.unwrap().source_policy.unwrap();
    assert_eq!(source.include_domains, list(&["i"]));
    assert_eq!(source.exclude_domains, list(&["e"]));
    assert_eq!(source.after_date, None);
}

#[test]
fn listed_names_come_before_repeated_ones() {
    let r = parse_get_request(
        SearchQuery {
            search_queries: list(&["x"]),
            include_domains: list(&["y"]),
            exclude_domains: list(&["z"]),
            ..query()
        },
        RepeatedQuery {
            q: list(&["a"]),
            search_queries: list(&["b"]),
            include_domains: list(&["c"]),
            exclude_domains: list(&["d"]),
        },
    )
    .unwrap();
    assert_eq!(r.search_queries, list(&["x"]));
    let source = r.advanced_settings.unwrap().source_policy.unwrap();
    assert_eq!(source.include_domains, list(&["y"]));
    assert_eq!(source.exclude_domains, list(&["z"]));
}

#[test]
fn settings_are_there_only_where_the_query_has_them() {
    let plain = parse_get_request(query(), repeated()).unwrap();
    assert!(plain.advanced_settings.is_none());
    assert_eq!(plain.mode, None);

    let r = parse_get_request(
        SearchQuery {
            objective: text("o"),
            mode: text("FAST"),
            max_chars_total: Some(1),
            session_id: text("s"),
            client_model: text("m"),
            max_chars_per_result: Some(2),
            max_age_seconds: Some(3),
            max_results: Some(4),
            location: text("us"),
            after_date: text("2026-01-01"),
            ..query()
        },
        repeated(),
    )
    .unwrap();
    assert_eq!(r.objective, text("o"));
    assert_eq!(r.mode, Some(SearchMode::Fast));
    assert_eq!(r.max_chars_total, Some(1));
    assert_eq!(r.session_id, text("s"));
    assert_eq!(r.client_model, text("m"));
    let settings = r.advanced_settings.unwrap();
    assert_eq!(settings.excerpt_settings.unwrap().max_chars_per_result, Some(2));
    let fetching = settings.fetch_policy.unwrap();
    assert_eq!(fetching.max_age_seconds, Some(3));
    assert!(fetching.timeout_seconds.is_none());
    assert!(!fetching.disable_cache_fallback);
    assert_eq!(settings.max_results, Some(4));
    assert_eq!(settings.location, text("us"));
    assert_eq!(settings.source_policy.unwrap().after_date, text("2026-01-01"));

    let only = parse_get_request(SearchQuery { max_results: Some(9), ..query() }, repeated());
    let settings = only.unwrap().advanced_settings.unwrap();
    assert!(settings.source_policy.is_none());
    assert!(settings.fetch_policy.is_none());
    assert!(settings.excerpt_settings.is_none());
}

#[test]
fn unreadable_requests_are_refused() {
    assert_eq!(
        parse_search_request(Incoming::Query(Err("bad".to_string()), repeated())).unwrap_err(),
        "invalid query string: bad"
    );
    assert_eq!(
        parse_search_request(Incoming::Body(Err("bad".to_string()))).unwrap_err(),
        "invalid search request: bad"
    );
    let mode = SearchQuery { mode: text("x"), ..query() };
    assert_eq!(
        refusal(begin_search(Incoming::Query(Ok(mode), repeated()), SearchMode::Turbo)),
        (
            400,
            text("public, max-age=300"),
            "{\"error\":\"invalid mode 'x'; expected turbo, fast, basic, or advanced\"}"
                .to_string()
        )
    );
}

#[test]
fn blank_searches_are_refused() {
    let blank = SearchQuery { objective: text("  "), search_queries: list(&["\t"]), ..query() };
    assert_eq!(
        refusal(begin_search(Incoming::Query(Ok(blank), repeated()), SearchMode::Turbo)),
        (
            400,
            text("public, max-age=300"),
            "{\"error\":\"search_queries is required (or provide objective)\"}".to_string()
        )
    );
    let objective = SearchQuery { objective: text(" why "), ..query() };
    let (_, request) =
        fetch(begin_search(Incoming::Query(Ok(objective), repeated()), SearchMode::Basic));
    assert_eq!(request.search_queries, list(&["why"]));
    assert_eq!(request.mode, Some(SearchMode::Basic));
}

#[test]
fn same_searches_share_a_key() {
    let get = SearchQuery { session_id: text("me"), mode: text("turbo"), ..query() };
    let (a, request) = fetch(begin_search(
        Incoming::Query(
            Ok(get),
            RepeatedQuery { q: list(&["Stock  price", "nike"]), ..repeated() },
        ),
        SearchMode::Turbo,
    ));
    let (b, _) = fetch(begin_search(
        Incoming::Body(Ok(SearchRequest {
            search_queries: list(&["NIKE", "price stock", "nike"]),
            ..SearchRequest::default()
        })),
        SearchMode::Turbo,
    ));
    assert_eq!(a, b);
    assert_eq!(a, request.cache_key());
    let (c, _) = fetch(begin_search(
        Incoming::Body(Ok(SearchRequest {
            search_queries: list(&["nike", "stock price"]),
            ..SearchRequest::default()
        })),
        SearchMode::Fast,
    ));
    assert_ne!(a, c);
}

#[test]
fn the_default_mode_and_the_objective_stand_for_what_is_not_there() {
    let key = |mode: Option<SearchMode>, queries: &[&str]| {
        fetch(begin_search(
            Incoming::Body(Ok(SearchRequest {
                objective: text("Why not"),
                search_queries: list(queries),
                mode,
                ..SearchRequest::default()
            })),
            SearchMode::Fast,
        ))
        .0
    };
    assert_eq!(key(None, &[]), key(Some(SearchMode::Fast), &["not WHY"]));
    assert_ne!(key(None, &[]), key(Some(SearchMode::Turbo), &["not WHY"]));
}

#[test]
fn objectives_alone_share_a_key_by_their_words_in_order() {
    let key = |objective: &str| {
        fetch(begin_search(
            Incoming::Body(Ok(SearchRequest {
                objective: text(objective),
                ..SearchRequest::default()
            })),
            SearchMode::Turbo,
        ))
        .0
    };
    assert_eq!(key("Why  not"), key(" why NOT "));
    assert_ne!(key("why not"), key("not why"));
}

#[test]
fn keys_are_asked_for_only_where_one_is_set() {
    assert!(require_key(None, None, None).is_none());
    assert!(require_key(None, text("x"), None).is_none());
    assert!(require_key(Some("k"), text("k"), None).is_none());
    assert!(require_key(Some("k"), None, text("k")).is_none());
    assert!(require_key(Some("k"), text("k"), text("x")).is_none());
    for (header, query) in [
        (None, None),
        (text("K"), None),
        (None, text("x")),
        (text("x"), text("k")),
        (text(""), text("k")),
    ] {
        let reply = require_key(Some("k"), header, query).unwrap();
        assert_eq!(reply.status, 401);
        assert_eq!(reply.cache_control, text("no-store"));
        assert_eq!(json(&reply), "{\"error\":\"invalid or missing x-api-key\"}");
    }
}

#[test]
fn tags_come_from_the_digest_of_the_body() {
    let entry = CachedSearch::new(b"{}".to_vec(), TimeSpan::from_secs(9));
    let digest = blake3::hash(b"{}").to_hex().to_string();
    assert_eq!(entry.etag, format!("\"{}\"", &digest[..16]));
    assert_eq!(entry.body, b"{}");
    assert_eq!(entry.ttl, TimeSpan::from_secs(9));
    let same = CachedSearch::new(b"{}".to_vec(), TimeSpan::from_secs(1));
    assert_eq!(entry.etag, same.etag);
}

#[test]
fn entries_weigh_their_bytes() {
    let entry = CachedSearch::new(vec![0; 100], TimeSpan::from_secs(9));
    assert_eq!(entry.weight("key"), 121);
    assert_eq!(entry.weight("é"), 120);
    assert_eq!(entry.weight(""), 118);
}

#[test]
fn time_left_falls_to_nothing() {
    let ttl = TimeSpan::new(10, 500_000_000);
    let entry = CachedSearch::new(vec![], ttl);
    let left = |secs, nanos| {
        let r = entry.remaining_after(TimeSpan::new(secs, nanos));
        (r.as_secs(), r.subsec_nanos())
    };
    assert_eq!(left(0, 0), (10, 500_000_000));
    assert_eq!(left(1, 0), (9, 500_000_000));
    assert_eq!(left(0, 700_000_000), (9, 800_000_000));
    assert_eq!(left(10, 500_000_000), (0, 0));
    assert_eq!(left(10, 499_999_999), (0, 1));
    assert_eq!(left(u64::MAX, 0), (0, 0));
    assert!(entry.remaining().as_secs() <= 10);
}

#[test]
fn time_left_goes_by_the_clock() {
    let mut entry = CachedSearch::new(vec![], TimeSpan::from_secs(1000));
    assert!(entry.remaining().as_secs() > 900);
    entry.created = Instant::now() - Duration::from_secs(400);
    let left = entry.remaining().as_secs();
    assert!(left <= 600 && left > 500);
    entry.ttl = TimeSpan::from_secs(10);
    assert_eq!(entry.remaining(), TimeSpan::from_secs(0));
}

#[test]
fn time_left_is_counted_from_when_the_entry_was_made() {
    let made = Instant::now();
    let entry = CachedSearch::made_at(b"{}".to_vec(), TimeSpan::new(10, 250_000_000), made);
    assert_eq!(entry.created, made);
    assert_eq!(entry.etag, CachedSearch::new(b"{}".to_vec(), entry.ttl).etag);
    let left = |passed: Duration| {
        let r = entry.remaining_at(&(made + passed));
        (r.as_secs(), r.subsec_nanos())
    };
    assert_eq!(left(Duration::ZERO), (10, 250_000_000));
    assert_eq!(left(Duration::new(3, 500_000_000)), (6, 750_000_000));
    assert_eq!(left(Duration::new(10, 250_000_000)), (0, 0));
    assert_eq!(left(Duration::from_secs(99)), (0, 0));
    let later = CachedSearch::made_at(vec![], entry.ttl, made + Duration::from_secs(5));
    assert_eq!(later.remaining_at(&made), entry.ttl);
}

#[test]
fn answers_are_held_for_the_time_left_when_they_are_served() {
    let made = Instant::now();
    let entry = CachedSearch::made_at(b"{}".to_vec(), TimeSpan::from_secs(300), made);
    for (passed, expected) in [(0, 300), (100, 200), (299, 1), (300, 0), (1000, 0)] {
        let now = made + Duration::from_secs(passed);
        let (counter, reply) =
            finish_search_at(Ok((&entry, true)), &now, CdnCacheMode::Private, "k", None);
        assert_eq!(counter, Counter::Hits);
        assert_eq!(reply.cache_control, Some(format!("private, max-age={expected}")));
    }
    let now = made + Duration::from_millis(500);
    let (_, reply) = finish_search_at(Ok((&entry, false)), &now, CdnCacheMode::Private, "k", None);
    assert_eq!(reply.cache_control, text("private, max-age=299"));
    let error = ParallelError::Transport("no route".to_string());
    let (counter, reply) = finish_search_at(Err(&error), &now, CdnCacheMode::Public, "k", None);
    assert_eq!((counter, reply.status), (Counter::UpstreamErrors, 502));
}

#[test]
fn spans_are_compared_as_a_whole() {
    let a = TimeSpan::new(1, 2);
    let b = TimeSpan::new(1, 3);
    let c = TimeSpan::new(2, 0);
    assert_eq!(a.min(b), a);
    assert_eq!(b.min(a), a);
    assert_eq!(c.min(b), b);
}

#[test]
fn lookups_are_hits_unless_this_caller_fetched() {
    assert!(matches!(after_lookup(Some(5)), LookupStep::Serve(5)));
    assert!(matches!(after_lookup::<u8>(None), LookupStep::FetchOnce));
    assert_eq!(after_fetch::<u8, ()>(Ok(5), true), Ok((5, false)));
    assert_eq!(after_fetch::<u8, ()>(Ok(5), false), Ok((5, true)));
    assert_eq!(after_fetch::<u8, u8>(Err(7), true), Err(7));
    assert_eq!(after_fetch::<u8, u8>(Err(7), false), Err(7));
}

#[test]
fn caches_are_told_how_long() {
    assert_eq!(
        cache_control_text(CdnCacheMode::Public, 300),
        "public, max-age=300, stale-while-revalidate=300, stale-if-error=3600"
    );
    assert_eq!(cache_control_text(CdnCacheMode::Private, 0), "private, max-age=0");
    assert_eq!(cache_control_text(CdnCacheMode::Off, 300), "no-store");
}

#[test]
fn only_header_text_is_sent() {
    assert_eq!(sendable("a\tb é"), text("a\tb é"));
    assert_eq!(sendable(""), text(""));
    for bad in ["\n", "a\rb", "\0", "\u{7f}", "x\u{1f}"] {
        assert_eq!(sendable(bad), None);
    }
    for n in 0u32..0x300 {
        if let Some(c) = char::from_u32(n) {
            let s = c.to_string();
            let accepted = salvo::http::HeaderValue::from_str(&s).is_ok();
            assert_eq!(sendable(&s).is_some(), accepted, "{n:x}");
        }
    }
}

#[test]
fn keys_are_shown_by_their_first_bytes() {
    assert_eq!(label_of("0123456789abcdef0123"), "0123456789abcdef");
    assert_eq!(label_of("short"), "short");
    assert_eq!(label_of("ééééééééé"), "éééééééé");
}

#[test]
fn tags_are_found_in_lists() {
    assert!(has_tag("\"a\"", "\"a\""));
    assert!(has_tag("\"x\" ,  \"a\",\"y\"", "\"a\""));
    assert!(!has_tag("\"x\", \"y\"", "\"a\""));
    assert!(!has_tag("W/\"a\"", "\"a\""));
    assert!(!has_tag("", "\"a\""));
    assert!(!has_tag("*", "\"a\""));
}

#[test]
fn kept_answers_are_served_whole() {
    let entry = CachedSearch::new(b"{\"r\":1}".to_vec(), TimeSpan::from_secs(300));
    let key = SearchRequest::default().cache_key();
    let reply = serve_entry(&entry, 42, CdnCacheMode::Private, true, &key, None);
    assert_eq!(reply.status, 200);
    assert_eq!(reply.cache_control, text("private, max-age=42"));
    assert_eq!(reply.etag, Some(entry.etag.clone()));
    assert_eq!(reply.x_cache, text("HIT"));
    assert_eq!(reply.x_cache_key, text(&key[..16]));
    assert_eq!(reply.content_type, text("application/json"));
    assert!(matches!(reply.body, ReplyBody::Kept(body) if *body == entry.body));
    let miss = serve_entry(&entry, 42, CdnCacheMode::Off, false, "k", Some("\"other\""));
    assert_eq!(miss.status, 200);
    assert_eq!(miss.x_cache, text("MISS"));
    assert_eq!(miss.x_cache_key, text("k"));
    assert_eq!(miss.cache_control, text("no-store"));
}

#[test]
fn served_tags_revalidate() {
    let entry = CachedSearch::new(b"{}".to_vec(), TimeSpan::from_secs(300));
    let sent = format!("\"zzz\", {}", entry.etag);
    for header in [entry.etag.as_str(), sent.as_str()] {
        let reply = serve_entry(&entry, 7, CdnCacheMode::Public, true, "k", Some(header));
        assert_eq!(reply.status, 304);
        assert_eq!(reply.etag, Some(entry.etag.clone()));
        assert_eq!(reply.content_type, None);
        assert!(matches!(reply.body, ReplyBody::Empty));
        assert_eq!(
            reply.cache_control,
            text("public, max-age=7, stale-while-revalidate=7, stale-if-error=3600")
        );
    }
}

#[test]
fn tags_that_cannot_be_sent_are_left_out() {
    let mut entry = CachedSearch::new(b"{}".to_vec(), TimeSpan::from_secs(300));
    entry.etag = "a\nb".to_string();
    let reply = serve_entry(&entry, 7, CdnCacheMode::Off, true, "k\0", None);
    assert_eq!(reply.etag, None);
    assert_eq!(reply.x_cache_key, None);
    assert_eq!(reply.status, 200);
}

#[test]
fn finished_searches_are_counted() {
    let mut entry = CachedSearch::new(b"{}".to_vec(), TimeSpan::from_secs(1000));
    entry.created = Instant::now() - Duration::from_secs(2000);
    let (counter, reply) = finish_search(Ok((&entry, true)), CdnCacheMode::Private, "k", None);
    assert_eq!(counter, Counter::Hits);
    assert_eq!(reply.cache_control, text("private, max-age=0"));
    let (counter, reply) = finish_search(Ok((&entry, false)), CdnCacheMode::Private, "k", None);
    assert_eq!(counter, Counter::Misses);
    assert_eq!(reply.x_cache, text("MISS"));
    let error = ParallelError::Transport("no route".to_string());
    let (counter, reply) = finish_search(Err(&error), CdnCacheMode::Public, "k", None);
    assert_eq!(counter, Counter::UpstreamErrors);
    assert_eq!(reply.status, 502);
    assert_eq!(reply.cache_control, text("no-store"));
    assert_eq!(json(&reply), "{\"error\":\"search origin unavailable\"}");
}

#[test]
fn upstream_errors_are_passed_on() {
    let shown = |status: u16, body: &str| {
        let reply = render_parallel_error(&ParallelError::Upstream {
            status,
            body: body.to_string(),
        });
        assert_eq!(reply.cache_control, text("no-store"));
        assert_eq!(reply.etag, None);
        (reply.status, json(&reply).to_string())
    };
    assert_eq!(shown(429, " {\"b\": 1, \"a\": [ ] }"), (429, "{\"a\":[],\"b\":1}".to_string()));
    assert_eq!(shown(500, "oh \"no\""), (500, "{\"error\":\"oh \\\"no\\\"\"}".to_string()));
    assert_eq!(shown(404, ""), (404, "{\"error\":\"\"}".to_string()));
    assert_eq!(shown(400, "7"), (400, "7".to_string()));
}

#[test]
fn upstream_errors_take_the_text_they_are_given() {
    let reply = render_upstream_error(418, "x", text("[1]"));
    assert_eq!((reply.status, json(&reply)), (418, "[1]"));
    let reply = render_upstream_error(418, "x", None);
    assert_eq!((reply.status, json(&reply)), (418, "{\"error\":\"x\"}"));
}

#[test]
fn error_pages_are_stored_only_where_the_url_decides() {
    assert_eq!(empty_error(Some(404)), "public, max-age=3600");
    assert_eq!(empty_error(Some(405)), "public, max-age=3600");
    assert_eq!(empty_error(Some(500)), "no-store");
    assert_eq!(empty_error(Some(403)), "no-store");
    assert_eq!(empty_error(None), "no-store");
}

#[test]
fn health_is_reported() {
    let reply = health(Some(HealthReport {
        entries: 1,
        bytes: 22,
        hits: 3,
        misses: 1,
        upstream_errors: 0,
        hit_rate: serde_json::to_string(&0.75f64).unwrap(),
    }));
    assert_eq!(reply.status, 200);
    assert_eq!(reply.cache_control, text("no-store"));
    assert_eq!(
        json(&reply),
        "{\"cache\":{\"bytes\":22,\"entries\":1,\"hit_rate\":0.75,\"hits\":3,\"misses\":1,\"upstream_errors\":0},\"ok\":true}"
    );
    assert_eq!(json(&health(None)), "{\"ok\":true}");
}

#[test]
fn refusals_have_these_texts() {
    let reply = render_bad_request("a\n\"b\"");
    assert_eq!(reply.status, 400);
    assert_eq!(json(&reply), "{\"error\":\"a\\n\\\"b\\\"\"}");
    let reply = missing_state();
    assert_eq!(reply.status, 500);
    assert_eq!(reply.cache_control, None);
    assert_eq!(json(&reply), "{\"error\":\"missing app state\"}");
}
