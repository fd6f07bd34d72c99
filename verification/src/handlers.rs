//! What the service answers: searches, refusals, failures, and its health.

use std::time::Instant;

use vstd::prelude::*;

use crate::cache::{is_digest_tag, left_after, nanos_between, CachedSearch, NANOS_PER_SEC};
use crate::config::CdnCacheMode;
use crate::hash::is_hex_digit;
use crate::json::{bool_text, json_bool, json_member, json_object, member_text, object_text};
use crate::key::key_digest;
use crate::key_laws::law_key_of_normalized;
use crate::model::{RequestView, SearchMode, SearchRequest};
use crate::number::{decimal, decimal_text};
use crate::parallel::{ErrorView, ParallelError};
use crate::query::{parse_search_request, Incoming, IncomingView};
use crate::reply::{
    cache_control, cache_control_text, error_json, error_text, has_label, has_tag, header_value,
    json_reply, key_label, label_of, lists_tag, sendable, text_reply, BodyView, Reply, ReplyBody,
    ReplyView,
};
use crate::response::{json_value_text, value_text};
use crate::text::{opt_text, texts};

verus! {

/// What the text holds, where there is one.
pub open spec fn opt_str(o: Option<&str>) -> Option<Seq<char>> {
    match o {
        Some(s) => Some(s@),
        None => None,
    }
}

/// What caches may do with the empty page for an error of this status. Whether a path is there and
/// takes a method depends on the URL alone, so that caches may take what asks for those again and
/// again; nothing else may stay in a cache.
pub open spec fn error_page_control(status: Option<u16>) -> Seq<char> {
    if status == Some(404u16) || status == Some(405u16) {
        "public, max-age=3600"@
    } else {
        "no-store"@
    }
}

/// What caches may do with the empty page for an error of this status.
pub fn empty_error(status: Option<u16>) -> (r: String)
    ensures
        r@ == error_page_control(status),
{
    match status {
        Some(code) => if code == 404 || code == 405 {
            "public, max-age=3600".to_string()
        } else {
            "no-store".to_string()
        },
        None => "no-store".to_string(),
    }
}

/// How the cache does: what it holds, and how often it was asked. `hit_rate` is the JSON text of
/// the share of hits.
pub struct HealthReport {
    pub entries: u64,
    pub bytes: u64,
    pub hits: u64,
    pub misses: u64,
    pub upstream_errors: u64,
    pub hit_rate: String,
}

/// What a report holds.
#[verifier::ext_equal]
pub struct HealthView {
    pub entries: u64,
    pub bytes: u64,
    pub hits: u64,
    pub misses: u64,
    pub upstream_errors: u64,
    pub hit_rate: Seq<char>,
}

impl View for HealthReport {
    type V = HealthView;

    open spec fn view(&self) -> HealthView {
        HealthView {
            entries: self.entries,
            bytes: self.bytes,
            hits: self.hits,
            misses: self.misses,
            upstream_errors: self.upstream_errors,
            hit_rate: self.hit_rate@,
        }
    }
}

impl HealthView {
    /// The JSON object of the report.
    pub open spec fn json(self) -> Seq<char> {
        json_object(
            seq![
                json_member("bytes"@, decimal(self.bytes as nat)),
                json_member("entries"@, decimal(self.entries as nat)),
                json_member("hit_rate"@, self.hit_rate),
                json_member("hits"@, decimal(self.hits as nat)),
                json_member("misses"@, decimal(self.misses as nat)),
                json_member("upstream_errors"@, decimal(self.upstream_errors as nat)),
            ],
        )
    }
}

/// The body of the answer on how the service does.
pub open spec fn health_json(report: Option<HealthView>) -> Seq<char> {
    let ok = json_member("ok"@, json_bool(true));
    match report {
        Some(h) => json_object(seq![json_member("cache"@, h.json()), ok]),
        None => json_object(seq![ok]),
    }
}

/// What the report holds, where there is one.
pub open spec fn opt_health(o: Option<HealthReport>) -> Option<HealthView> {
    match o {
        Some(h) => Some(h@),
        None => None,
    }
}

fn report_text(report: &HealthReport) -> (r: String)
    ensures
        r@ == report@.json(),
{
    let mut members: Vec<String> = Vec::new();
    members.push(member_text("bytes", decimal_text(report.bytes).as_str()));
    members.push(member_text("entries", decimal_text(report.entries).as_str()));
    members.push(member_text("hit_rate", report.hit_rate.as_str()));
    members.push(member_text("hits", decimal_text(report.hits).as_str()));
    members.push(member_text("misses", decimal_text(report.misses).as_str()));
    members.push(member_text("upstream_errors", decimal_text(report.upstream_errors).as_str()));
    assert(texts(members@) == seq![
        json_member("bytes"@, decimal(report.bytes as nat)),
        json_member("entries"@, decimal(report.entries as nat)),
        json_member("hit_rate"@, report.hit_rate@),
        json_member("hits"@, decimal(report.hits as nat)),
        json_member("misses"@, decimal(report.misses as nat)),
        json_member("upstream_errors"@, decimal(report.upstream_errors as nat)),
    ]);
    object_text(&members)
}

/// The answer on how the service does, with a report on the cache where there is one. It is never
/// stored.
pub fn health<'a>(report: Option<HealthReport>) -> (r: Reply<'a>)
    ensures
        r@ == json_reply(200, Some("no-store"@), health_json(opt_health(report))),
{
    let mut members: Vec<String> = Vec::new();
    if let Some(h) = &report {
        members.push(member_text("cache", report_text(h).as_str()));
    }
    members.push(member_text("ok", bool_text(true).as_str()));
    proof {
        let ok = json_member("ok"@, json_bool(true));
        match report {
            Some(h) => assert(texts(members@) == seq![json_member("cache"@, h@.json()), ok]),
            None => assert(texts(members@) == seq![ok]),
        }
    }
    text_reply(200, Some("no-store".to_string()), object_text(&members))
}

/// The answer where the service was set up without its state.
pub fn missing_state<'a>() -> (r: Reply<'a>)
    ensures
        r@ == json_reply(500, None, error_json("missing app state"@)),
{
    text_reply(500, None, error_text("missing app state"))
}

/// The answer to a request without the right key. It must not be stored: the key stands in a
/// header, and a shared cache would give this answer to requests for the same URL that have it.
pub open spec fn unauthorized() -> ReplyView {
    json_reply(401, Some("no-store"@), error_json("invalid or missing x-api-key"@))
}

/// The key that a request gives: in its header, or else in its query.
pub open spec fn provided_key(header: Option<Seq<char>>, query: Option<Seq<char>>) -> Option<
    Seq<char>,
> {
    match header {
        Some(k) => Some(k),
        None => query,
    }
}

/// The refusal of a request, unless no key is asked for or it gives the right one.
pub fn require_key<'a>(
    expected: Option<&str>,
    header: Option<String>,
    query: Option<String>,
) -> (r: Option<Reply<'a>>)
    ensures
        match r {
            None => expected is None || provided_key(opt_text(header), opt_text(query)) == opt_str(
                expected,
            ),
            Some(reply) => expected is Some && provided_key(opt_text(header), opt_text(query))
                != opt_str(expected) && reply@ == unauthorized(),
        },
        r is None <==> {
            ||| expected is None
            ||| header is Some && opt_text(header) == opt_str(expected)
            ||| header is None && opt_text(query) == opt_str(expected)
        },
{
    let wanted = match expected {
        Some(k) => k.to_string(),
        None => {
            return None;
        },
    };
    let provided = match header {
        Some(k) => Some(k),
        None => query,
    };
    let right = match provided {
        Some(k) => k == wanted,
        None => false,
    };
    if right {
        None
    } else {
        Some(
            text_reply(
                401,
                Some("no-store".to_string()),
                error_text("invalid or missing x-api-key"),
            ),
        )
    }
}

/// The answer to a request that makes no sense. The same URL is refused in the same way each time,
/// so that caches may hold the refusal for a while.
pub open spec fn bad_request(message: Seq<char>) -> ReplyView {
    json_reply(400, Some("public, max-age=300"@), error_json(message))
}

/// The answer to a request that makes no sense.
pub fn render_bad_request<'a>(message: &str) -> (r: Reply<'a>)
    ensures
        r@ == bad_request(message@),
{
    text_reply(400, Some("public, max-age=300".to_string()), error_text(message))
}

/// How a search goes on once its request came in.
pub enum SearchStep<'a> {
    /// It is refused.
    Refuse(Reply<'a>),
    /// The answer is looked for under the key, and asked for upstream where it is not there.
    Fetch { key: String, request: SearchRequest },
}

/// What a step holds.
#[verifier::ext_equal]
pub enum StepView {
    Refuse(ReplyView),
    Fetch { key: Seq<char>, request: RequestView },
}

impl<'a> View for SearchStep<'a> {
    type V = StepView;

    open spec fn view(&self) -> StepView {
        match self {
            SearchStep::Refuse(reply) => StepView::Refuse(reply@),
            SearchStep::Fetch { key, request } => StepView::Fetch {
                key: key@,
                request: request@,
            },
        }
    }
}

/// How a search goes on: the request is put in shape, and needs a query.
pub open spec fn begun(incoming: IncomingView, default_mode: SearchMode) -> StepView {
    match incoming.request() {
        Err(message) => StepView::Refuse(bad_request(message)),
        Ok(asked) => {
            let request = asked.normalized(default_mode);
            if request.search_queries.len() == 0 {
                StepView::Refuse(bad_request("search_queries is required (or provide objective)"@))
            } else {
                StepView::Fetch { key: key_digest(request.canonical()), request }
            }
        },
    }
}

/// How a search goes on once its request came in.
pub fn begin_search<'a>(incoming: Incoming, default_mode: SearchMode) -> (r: SearchStep<'a>)
    ensures
        r@ == begun(incoming@, default_mode),
        r matches SearchStep::Fetch { key, request } ==> {
            &&& key@.len() == 64
            &&& forall|i: int| 0 <= i < 64 ==> is_hex_digit(#[trigger] key@[i])
        },
{
    let mut request = match parse_search_request(incoming) {
        Ok(request) => request,
        Err(message) => {
            return SearchStep::Refuse(render_bad_request(message.as_str()));
        },
    };
    request.normalize_for_upstream(default_mode);
    if request.search_queries.len() == 0 {
        return SearchStep::Refuse(
            render_bad_request("search_queries is required (or provide objective)"),
        );
    }
    let key = request.cache_key();
    SearchStep::Fetch { key, request }
}

/// The key of a search has a label: its first 16 digits.
pub proof fn law_search_key_has_label(key: Seq<char>)
    requires
        key.len() == 64,
        forall|i: int| 0 <= i < 64 ==> is_hex_digit(#[trigger] key[i]),
    ensures
        has_label(key),
        key_label(key) == key.take(16),
{
    assert(vstd::utf8::is_ascii_chars(key)) by {
        assert forall|i: int| 0 <= i < key.len() implies '\0' <= #[trigger] key[i] <= '\u{7f}' by {
            assert(is_hex_digit(key[i]));
        }
    }
    crate::reply::lemma_ascii_label(key);
}

/// The answer to a search: what is kept, fresh for `secs` more seconds, or only that the client has
/// it already, where it lists its tag.
pub open spec fn served(
    body: Seq<u8>,
    etag: Seq<char>,
    secs: nat,
    mode: CdnCacheMode,
    hit: bool,
    key: Seq<char>,
    if_none_match: Option<Seq<char>>,
) -> ReplyView {
    let whole = ReplyView {
        status: 200,
        cache_control: header_value(cache_control(mode, secs)),
        etag: header_value(etag),
        x_cache: Some(
            if hit {
                "HIT"@
            } else {
                "MISS"@
            },
        ),
        x_cache_key: header_value(key_label(key)),
        content_type: Some("application/json"@),
        body: BodyView::Kept(body),
    };
    if if_none_match is Some && lists_tag(if_none_match->0, etag) {
        ReplyView { status: 304, content_type: None, body: BodyView::Empty, ..whole }
    } else {
        whole
    }
}

/// The answer to a search that is kept as `entry` and fresh for `secs` more seconds.
pub fn serve_entry<'a>(
    entry: &'a CachedSearch,
    secs: u64,
    mode: CdnCacheMode,
    hit: bool,
    key: &str,
    if_none_match: Option<&str>,
) -> (r: Reply<'a>)
    requires
        has_label(key@),
    ensures
        r@ == served(
            entry.body@,
            entry.etag@,
            secs as nat,
            mode,
            hit,
            key@,
            opt_str(if_none_match),
        ),
        (if_none_match matches Some(h) && lists_tag(h@, entry.etag@)) ==> r.status == 304
            && r.body@ == BodyView::Empty,
        !(if_none_match matches Some(h) && lists_tag(h@, entry.etag@)) ==> r.status == 200
            && r.body@ == BodyView::Kept(entry.body@),
{
    let mut reply = apply_cache_headers(entry, secs, mode, hit, key);
    let revalidated = match if_none_match {
        Some(header) => has_tag(header, entry.etag.as_str()),
        None => false,
    };
    if revalidated {
        reply.status = 304;
    } else {
        reply.content_type = Some("application/json".to_string());
        reply.body = ReplyBody::Kept(&entry.body);
    }
    reply
}

/// The headers of an answer to a search, with no body yet.
fn apply_cache_headers<'a>(
    entry: &CachedSearch,
    secs: u64,
    mode: CdnCacheMode,
    hit: bool,
    key: &str,
) -> (r: Reply<'a>)
    requires
        has_label(key@),
    ensures
        r@ == (ReplyView {
            status: 200,
            cache_control: header_value(cache_control(mode, secs as nat)),
            etag: header_value(entry.etag@),
            x_cache: Some(
                if hit {
                    "HIT"@
                } else {
                    "MISS"@
                },
            ),
            x_cache_key: header_value(key_label(key@)),
            content_type: None,
            body: BodyView::Empty,
        }),
{
    let x_cache = if hit {
        "HIT".to_string()
    } else {
        "MISS".to_string()
    };
    Reply {
        status: 200,
        cache_control: sendable(cache_control_text(mode, secs).as_str()),
        etag: sendable(entry.etag.as_str()),
        x_cache: Some(x_cache),
        x_cache_key: sendable(label_of(key).as_str()),
        content_type: None,
        body: ReplyBody::Empty,
    }
}

/// The value that `serde_json::from_str` reads from `text`, where there is one.
pub uninterp spec fn json_value(text: Seq<char>) -> Option<serde_json::Value>;

/// `serde_json::from_str` into a `Value`: the value, where `text` is JSON text. It depends on
/// `text` alone.
#[verifier::external_body]
fn parse_value(text: &str) -> (r: Option<serde_json::Value>)
    ensures
        r == json_value(text@),
{
    serde_json::from_str::<serde_json::Value>(text).ok()
}

/// `text` written anew, where it is JSON text.
pub open spec fn rewritten(text: Seq<char>) -> Option<Seq<char>> {
    match json_value(text) {
        Some(v) => Some(json_value_text(v)),
        None => None,
    }
}

/// The answer where the upstream service answered with an error: its status, and the JSON text that
/// it sent, `rewritten`, or an object that holds the text where it is no JSON. It is never stored.
pub open spec fn upstream_failure(
    status: u16,
    body: Seq<char>,
    rewritten: Option<Seq<char>>,
) -> ReplyView {
    json_reply(
        status,
        Some("no-store"@),
        match rewritten {
            Some(text) => text,
            None => error_json(body),
        },
    )
}

/// The answer where the search failed. It is never stored.
pub open spec fn failure(error: ErrorView) -> ReplyView {
    match error {
        ErrorView::Upstream { status, body } => upstream_failure(status, body, rewritten(body)),
        ErrorView::Transport(_) => json_reply(
            502,
            Some("no-store"@),
            error_json("search origin unavailable"@),
        ),
    }
}

/// The answer where the upstream service answered with an error, whose body written anew as JSON
/// text is `rewritten`.
pub fn render_upstream_error<'a>(status: u16, body: &str, rewritten: Option<String>) -> (r: Reply<
    'a,
>)
    ensures
        r@ == upstream_failure(status, body@, opt_text(rewritten)),
{
    let text = match rewritten {
        Some(text) => text,
        None => error_text(body),
    };
    text_reply(status, Some("no-store".to_string()), text)
}

/// The answer where the search failed.
pub fn render_parallel_error<'a>(error: &ParallelError) -> (r: Reply<'a>)
    ensures
        r@ == failure(error@),
{
    match error {
        ParallelError::Upstream { status, body } => {
            let text = match parse_value(body.as_str()) {
                Some(v) => Some(value_text(&v)),
                None => None,
            };
            render_upstream_error(*status, body.as_str(), text)
        },
        ParallelError::Transport(_) => text_reply(
            502,
            Some("no-store".to_string()),
            error_text("search origin unavailable"),
        ),
    }
}

/// What is counted.
#[derive(Clone, Copy, Debug, PartialEq, Eq, Structural)]
pub enum Counter {
    Hits,
    Misses,
    UpstreamErrors,
}

/// What is counted of a search that came to this end.
pub open spec fn counted<E, F>(outcome: Result<(E, bool), F>) -> Counter {
    match outcome {
        Ok((_, hit)) => if hit {
            Counter::Hits
        } else {
            Counter::Misses
        },
        Err(_) => Counter::UpstreamErrors,
    }
}

/// The answer at `now` to a search that came to this end, and what is counted. An answer that is
/// kept may be held downstream for the time that it is then still fresh.
pub fn finish_search_at<'a>(
    outcome: Result<(&'a CachedSearch, bool), &ParallelError>,
    now: &Instant,
    mode: CdnCacheMode,
    key: &str,
    if_none_match: Option<&str>,
) -> (r: (Counter, Reply<'a>))
    requires
        has_label(key@),
    ensures
        r.0 == counted(outcome),
        match outcome {
            Ok((entry, hit)) => r.1@ == served(
                entry.body@,
                entry.etag@,
                left_after(entry.ttl@, nanos_between(entry.created, *now)) / (NANOS_PER_SEC as nat),
                mode,
                hit,
                key@,
                opt_str(if_none_match),
            ),
            Err(error) => r.1@ == failure(error@),
        },
{
    match outcome {
        Ok((entry, hit)) => {
            let secs = entry.remaining_at(now).as_secs();
            let counter = if hit {
                Counter::Hits
            } else {
                Counter::Misses
            };
            (counter, serve_entry(entry, secs, mode, hit, key, if_none_match))
        },
        Err(error) => (Counter::UpstreamErrors, render_parallel_error(error)),
    }
}

/// The answer to a search that came to this end, at the moment of the call, and what is counted.
/// Which moment that is, the clock says.
pub fn finish_search<'a>(
    outcome: Result<(&'a CachedSearch, bool), &ParallelError>,
    mode: CdnCacheMode,
    key: &str,
    if_none_match: Option<&str>,
) -> (r: (Counter, Reply<'a>))
    requires
        has_label(key@),
    ensures
        r.0 == counted(outcome),
        match outcome {
            Ok((entry, hit)) => exists|now: Instant|
                r.1@ == served(
                    entry.body@,
                    entry.etag@,
                    left_after(entry.ttl@, #[trigger] nanos_between(entry.created, now)) / (
                    NANOS_PER_SEC as nat),
                    mode,
                    hit,
                    key@,
                    opt_str(if_none_match),
                ),
            Err(error) => r.1@ == failure(error@),
        },
{
    finish_search_at(outcome, &Instant::now(), mode, key, if_none_match)
}

/// A client that sends back the tag it was given is told that it has the answer already, with the
/// same headers but no body; one that sends none is given the whole body.
pub proof fn law_served_tag_revalidates(
    body: Seq<u8>,
    etag: Seq<char>,
    secs: nat,
    mode: CdnCacheMode,
    hit: bool,
    key: Seq<char>,
)
    requires
        is_digest_tag(etag),
    ensures
        served(body, etag, secs, mode, hit, key, None).etag == Some(etag),
        served(body, etag, secs, mode, hit, key, None).status == 200,
        served(body, etag, secs, mode, hit, key, None).body == BodyView::Kept(body),
        served(body, etag, secs, mode, hit, key, Some(etag)) == (ReplyView {
            status: 304,
            content_type: None,
            body: BodyView::Empty,
            ..served(body, etag, secs, mode, hit, key, None)
        }),
{
    assert forall|i: int| 0 <= i < etag.len() implies etag[i] != ',' && crate::reply::is_header_char(
        #[trigger] etag[i],
    ) by {
        if 1 <= i < 17 {
            assert(is_hex_digit(etag[i]));
        }
    }
    assert(!etag.contains(','));
    assert(crate::text::trim(etag) == etag);
    let listed = seq![etag];
    assert(crate::text::join(listed, seq![',']) == etag);
    crate::reply::law_listed_tag_is_found(listed, 0, etag);
}

/// No failed search, and no request refused for its key, may be stored.
pub proof fn law_failures_are_not_stored(error: ErrorView)
    ensures
        failure(error).cache_control == Some("no-store"@),
        unauthorized().cache_control == Some("no-store"@),
{
}

/// An answer is never held downstream for longer than the lifetime of what is kept.
pub proof fn law_max_age_is_within_lifetime(ttl: nat, elapsed: nat)
    ensures
        left_after(ttl, elapsed) / (NANOS_PER_SEC as nat) <= ttl / (NANOS_PER_SEC as nat),
{
    vstd::arithmetic::div_mod::lemma_div_is_ordered(
        left_after(ttl, elapsed) as int,
        ttl as int,
        NANOS_PER_SEC as int,
    );
}

/// A search that could be read is refused exactly where neither a query nor the objective holds a
/// word.
pub proof fn law_only_blank_searches_are_refused(incoming: IncomingView, default_mode: SearchMode)
    requires
        incoming.request() is Ok,
    ensures
        begun(incoming, default_mode) is Fetch <==> {
            let asked = incoming.request()->Ok_0;
            ||| exists|i: int|
                0 <= i < asked.search_queries.len() && crate::text::words(
                    #[trigger] asked.search_queries[i],
                ).len() > 0
            ||| asked.objective is Some && crate::text::words(asked.objective->0).len() > 0
        },
{
    crate::model::law_normalized_has_query(incoming.request()->Ok_0, default_mode);
}

/// Searches of which what decides the answer is the same, once the default mode stands for a mode
/// that is not named and the objective for a query that is not there, go on alike: both are refused,
/// or both are looked for under the same key.
pub proof fn law_same_search_same_key(a: IncomingView, b: IncomingView, default_mode: SearchMode)
    requires
        a.request() is Ok,
        b.request() is Ok,
        a.request()->Ok_0.canonical().completed(default_mode)
            == b.request()->Ok_0.canonical().completed(default_mode),
    ensures
        match (begun(a, default_mode), begun(b, default_mode)) {
            (StepView::Refuse(p), StepView::Refuse(q)) => p == q,
            (StepView::Fetch { key: k, .. }, StepView::Fetch { key: l, .. }) => k == l,
            _ => false,
        },
{
    law_key_of_normalized(a.request()->Ok_0, default_mode);
    law_key_of_normalized(b.request()->Ok_0, default_mode);
}

} // verus!
