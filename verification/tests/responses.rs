use search_cache::parallel::{
    accept_checked, accept_response, search_url, trim_base_url, ParallelError,
};
use search_cache::response::{project_document, project_search_response, Document, Member};
use serde_json::Value;

fn failed(r: Result<Vec<u8>, ParallelError>) -> (u16, String) {
    match r {
        Err(ParallelError::Upstream { status, body }) => (status, body),
        _ => panic!("an upstream error was expected"),
    }
}

#[test]
fn project_search_response_keeps_results_and_drops_bookkeeping() {
    let raw: Value = serde_json::from_str(
        "{
            \"search_id\": \"search_abc\",
            \"session_id\": \"session_abc\",
            \"usage\": [{ \"name\": \"sku_search\", \"count\": 1 }],
            \"warnings\": null,
            \"results\": [{
                \"url\": \"https://example.com\",
                \"title\": \"Example\",
                \"publish_date\": \"2026-08-20\",
                \"excerpts\": [\"hello\"]
            }]
        }",
    )
    .unwrap();
    let out: Value =
        serde_json::from_slice(&project_search_response(raw.to_string().as_bytes()).unwrap())
            .unwrap();
    assert_eq!(out["results"][0]["url"], "https://example.com");
    assert!(out.get("search_id").is_none());
    assert!(out.get("session_id").is_none());
    assert!(out.get("usage").is_none());
    assert!(out.get("warnings").is_none());
}

#[test]
fn project_search_response_keeps_nonempty_warnings() {
    let raw: Value = serde_json::from_str(
        "{
            \"results\": [],
            \"warnings\": [{ \"type\": \"input_validation_warning\", \"message\": \"max_results capped\" }]
        }",
    )
    .unwrap();
    let out: Value =
        serde_json::from_slice(&project_search_response(raw.to_string().as_bytes()).unwrap())
            .unwrap();
    assert_eq!(out["warnings"][0]["message"], "max_results capped");
}

#[test]
fn projection_has_this_text() {
    let raw = b" {\"warnings\": [ \"w\" ], \"x\": 1, \"results\": [ {\"a\": [1, 2.50]} , null ] } ";
    assert_eq!(
        project_search_response(raw).unwrap(),
        b"{\"results\":[{\"a\":[1,2.5]},null],\"warnings\":[\"w\"]}"
    );
    assert_eq!(
        project_search_response(b"{\"warnings\":[]}").unwrap(),
        b"{\"results\":[]}"
    );
    assert_eq!(
        project_search_response(b"{\"warnings\":7}").unwrap(),
        b"{\"results\":[]}"
    );
}

#[test]
fn projection_refuses_other_documents() {
    assert_eq!(
        project_search_response(b"[1]"),
        Err("invalid JSON from Parallel: expected object".to_string())
    );
    assert_eq!(
        project_search_response(b"{\"results\":{}}"),
        Err("invalid JSON from Parallel: results must be an array".to_string())
    );
    assert_eq!(
        project_search_response(b"{\"results\":null}"),
        Err("invalid JSON from Parallel: results must be an array".to_string())
    );
    let reason = serde_json::from_slice::<Value>(b"{oops").unwrap_err();
    assert_eq!(
        project_search_response(b"{oops"),
        Err(format!("invalid JSON from Parallel: {reason}"))
    );
}

#[test]
fn other_members_change_nothing() {
    let shown = |members: Vec<(String, Member)>| {
        project_document(Document::Object(members)).unwrap().to_json()
    };
    let results = || ("results".to_string(), Member::Array(vec![Value::from(1)]));
    let other = || ("usage".to_string(), Member::Array(vec![Value::from(2)]));
    assert_eq!(shown(vec![results()]), "{\"results\":[1]}");
    assert_eq!(shown(vec![other(), results()]), "{\"results\":[1]}");
    assert_eq!(shown(vec![results(), other()]), "{\"results\":[1]}");
    assert!(project_document(Document::Other(Value::Null)).is_err());
    assert!(project_document(Document::Object(vec![(
        "results".to_string(),
        Member::Other(Value::Null)
    )]))
    .is_err());
}

#[test]
fn successful_answers_are_taken_as_they_are() {
    let body = b" {\"a\" : 1}\n".to_vec();
    assert_eq!(accept_response(200, body.clone()).unwrap(), body);
    assert_eq!(accept_response(299, body.clone()).unwrap(), body);
}

#[test]
fn other_statuses_are_errors() {
    assert_eq!(
        failed(accept_response(429, b"slow down".to_vec())),
        (429, "slow down".to_string())
    );
    assert_eq!(
        failed(accept_response(503, "später".as_bytes().to_vec())),
        (503, "später".to_string())
    );
    assert_eq!(failed(accept_response(199, b"{}".to_vec())).0, 199);
    assert_eq!(failed(accept_response(300, b"{}".to_vec())).0, 300);
    assert_eq!(
        failed(accept_response(500, vec![b'a', 0xff, b'b'])),
        (500, "a\u{fffd}b".to_string())
    );
}

#[test]
fn bodies_that_are_no_json_are_errors() {
    let reason = serde_json::from_slice::<serde::de::IgnoredAny>(b"{\"a\":}").unwrap_err();
    assert_eq!(
        failed(accept_response(200, b"{\"a\":}".to_vec())),
        (502, format!("invalid JSON from Parallel: {reason}"))
    );
    assert_eq!(
        failed(accept_checked(200, b"{}".to_vec(), Some("why".to_string()))),
        (502, "invalid JSON from Parallel: why".to_string())
    );
    assert_eq!(accept_checked(204, vec![1], None).unwrap(), vec![1]);
}

#[test]
fn slashes_at_the_end_of_a_base_url_go() {
    assert_eq!(trim_base_url("https://api.parallel.ai//"), "https://api.parallel.ai");
    assert_eq!(trim_base_url("http://a/b"), "http://a/b");
    assert_eq!(trim_base_url("///"), "");
    assert_eq!(
        search_url(&trim_base_url("http://localhost:1/")),
        "http://localhost:1/v1/search"
    );
}
