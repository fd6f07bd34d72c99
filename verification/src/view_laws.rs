//! What the library's values stand for in its contracts: each field, as it is.

use vstd::prelude::*;

use crate::config::{Config, EnvVars};
use crate::handlers::{opt_health, opt_str, HealthReport, SearchStep, StepView};
use crate::key::CanonicalKey;
use crate::model::{
    result_view, AdvancedSearchSettings, FetchPolicy, RequestView, SearchRequest, SourcePolicy,
    TimeoutSeconds,
};
use crate::parallel::{answer_view, ErrorView, ParallelError};
use crate::query::{
    request_view, Incoming, IncomingView, QueryView, RepeatedQuery, SearchQuery,
};
use crate::reply::{BodyView, Reply, ReplyBody};
use crate::response::{
    members_view, opt_member_view, Document, DocumentView, Member, MemberView, Projection,
};
use crate::text::{opt_text, rows, texts};

verus! {

/// Lists of texts stand for each of their texts, in order.
pub proof fn law_lists_of_texts(v: Seq<String>, w: Seq<Vec<char>>, o: Option<String>, p: Option<&str>)
    ensures
        texts(v).len() == v.len(),
        forall|i: int| 0 <= i < v.len() ==> #[trigger] texts(v)[i] == v[i]@,
        rows(w).len() == w.len(),
        forall|i: int| 0 <= i < w.len() ==> #[trigger] rows(w)[i] == w[i]@,
        o matches Some(s) ==> opt_text(o) == Some(s@),
        o is None ==> opt_text(o) is None,
        p matches Some(s) ==> opt_str(p) == Some(s@),
        p is None ==> opt_str(p) is None,
{
}

/// A search request stands for all of its fields.
pub proof fn law_request_fields(r: SearchRequest)
    ensures
        r@.objective == opt_text(r.objective),
        r@.search_queries == texts(r.search_queries@),
        r@.mode == r.mode,
        r@.max_chars_total == r.max_chars_total,
        r@.session_id == opt_text(r.session_id),
        r@.client_model == opt_text(r.client_model),
        r.advanced_settings matches Some(a) ==> r@.advanced_settings == Some(a@),
        r.advanced_settings is None ==> r@.advanced_settings is None,
{
}

/// The settings of a search request stand for all of their fields.
pub proof fn law_settings_fields(
    a: AdvancedSearchSettings,
    s: SourcePolicy,
    f: FetchPolicy,
    t: TimeoutSeconds,
)
    ensures
        a.source_policy matches Some(p) ==> a@.source_policy == Some(p@),
        a.source_policy is None ==> a@.source_policy is None,
        a.fetch_policy matches Some(p) ==> a@.fetch_policy == Some(p@),
        a.fetch_policy is None ==> a@.fetch_policy is None,
        a@.excerpt_settings == a.excerpt_settings,
        a@.location == opt_text(a.location),
        a@.max_results == a.max_results,
        s@.include_domains == texts(s.include_domains@),
        s@.exclude_domains == texts(s.exclude_domains@),
        s@.after_date == opt_text(s.after_date),
        f@.max_age_seconds == f.max_age_seconds,
        f.timeout_seconds matches Some(l) ==> f@.timeout_seconds == Some(l@),
        f.timeout_seconds is None ==> f@.timeout_seconds is None,
        f@.disable_cache_fallback == f.disable_cache_fallback,
        t@.bits == t.bits,
        t@.json == t.json@,
{
}

/// A key stands for all of its fields.
pub proof fn law_key_fields(k: CanonicalKey)
    ensures
        k@.objective == opt_text(k.objective),
        k@.search_queries == texts(k.search_queries@),
        k@.mode == k.mode,
        k@.max_chars_total == k.max_chars_total,
        k@.client_model == opt_text(k.client_model),
        k@.location == opt_text(k.location),
        k@.max_results == k.max_results,
        k@.max_chars_per_result == k.max_chars_per_result,
        k@.include_domains == texts(k.include_domains@),
        k@.exclude_domains == texts(k.exclude_domains@),
        k@.after_date == opt_text(k.after_date),
        k@.max_age_seconds == k.max_age_seconds,
        k@.timeout_seconds == k.timeout_seconds,
        k@.disable_cache_fallback == k.disable_cache_fallback,
{
}

/// A query, and what is repeated in it, stand for all of their fields.
pub proof fn law_query_fields(q: SearchQuery, p: RepeatedQuery)
    ensures
        q@.objective == opt_text(q.objective),
        q@.search_queries == texts(q.search_queries@),
        q@.mode == opt_text(q.mode),
        q@.max_chars_total == q.max_chars_total,
        q@.session_id == opt_text(q.session_id),
        q@.client_model == opt_text(q.client_model),
        q@.location == opt_text(q.location),
        q@.max_results == q.max_results,
        q@.max_chars_per_result == q.max_chars_per_result,
        q@.max_age_seconds == q.max_age_seconds,
        q@.after_date == opt_text(q.after_date),
        q@.include_domains == texts(q.include_domains@),
        q@.exclude_domains == texts(q.exclude_domains@),
        p@.q == texts(p.q@),
        p@.search_queries == texts(p.search_queries@),
        p@.include_domains == texts(p.include_domains@),
        p@.exclude_domains == texts(p.exclude_domains@),
{
}

/// An incoming request stands for what was read, or for why nothing could be.
pub proof fn law_incoming_parts(
    q: SearchQuery,
    p: RepeatedQuery,
    r: SearchRequest,
    e: String,
)
    ensures
        Incoming::Query(Ok(q), p)@ == IncomingView::Query(
            Ok::<QueryView, Seq<char>>(q@),
            p@,
        ),
        Incoming::Query(Err(e), p)@ == IncomingView::Query(
            Err::<QueryView, Seq<char>>(e@),
            p@,
        ),
        Incoming::Body(Ok(r))@ == IncomingView::Body(Ok::<RequestView, Seq<char>>(r@)),
        Incoming::Body(Err(e))@ == IncomingView::Body(Err::<RequestView, Seq<char>>(e@)),
        request_view(Ok(r)) == Ok::<RequestView, Seq<char>>(r@),
        request_view(Err(e)) == Err::<RequestView, Seq<char>>(e@),
        result_view(Ok::<SearchRequest, String>(r)) == Ok::<SearchRequest, Seq<char>>(r),
        result_view(Err::<SearchRequest, String>(e)) == Err::<SearchRequest, Seq<char>>(e@),
{
}

/// Environment and settings stand for all of their fields.
pub proof fn law_environment_fields(v: EnvVars, c: Config)
    ensures
        v@.host == opt_text(v.host),
        v@.port == opt_text(v.port),
        v@.parallel_api_key == opt_text(v.parallel_api_key),
        v@.parallel_base_url == opt_text(v.parallel_base_url),
        v@.default_mode == opt_text(v.default_mode),
        v@.cache_ttl_secs == opt_text(v.cache_ttl_secs),
        v@.cache_ttl_volatile_secs == opt_text(v.cache_ttl_volatile_secs),
        v@.cache_max_bytes == opt_text(v.cache_max_bytes),
        v@.request_timeout_secs == opt_text(v.request_timeout_secs),
        v@.search_api_key == opt_text(v.search_api_key),
        v@.cdn_cache == opt_text(v.cdn_cache),
        c@.bind == c.bind@,
        c@.parallel_api_key == c.parallel_api_key@,
        c@.parallel_base_url == c.parallel_base_url@,
        c@.default_mode == c.default_mode,
        c@.cache_ttl == c.cache_ttl@,
        c@.cache_ttl_volatile == c.cache_ttl_volatile@,
        c@.cache_max_bytes == c.cache_max_bytes,
        c@.search_api_key == opt_text(c.search_api_key),
        c@.request_timeout == c.request_timeout@,
        c@.cdn_cache == c.cdn_cache,
{
}

/// A reply stands for all of its parts, and so does a step of a search.
pub proof fn law_reply_parts<'a>(
    r: Reply<'a>,
    text: String,
    bytes: &'a Vec<u8>,
    key: String,
    request: SearchRequest,
)
    ensures
        r@.status == r.status,
        r@.cache_control == opt_text(r.cache_control),
        r@.etag == opt_text(r.etag),
        r@.x_cache == opt_text(r.x_cache),
        r@.x_cache_key == opt_text(r.x_cache_key),
        r@.content_type == opt_text(r.content_type),
        r@.body == r.body@,
        ReplyBody::<'a>::Empty@ == BodyView::Empty,
        ReplyBody::<'a>::Json(text)@ == BodyView::Json(text@),
        ReplyBody::Kept(bytes)@ == BodyView::Kept(bytes@),
        SearchStep::Refuse(r)@ == StepView::Refuse(r@),
        (SearchStep::Fetch { key, request })@ == (StepView::Fetch {
            key: key@,
            request: request@,
        }),
{
}

/// A report on health stands for all of its numbers.
pub proof fn law_report_fields(h: HealthReport)
    ensures
        h@.entries == h.entries,
        h@.bytes == h.bytes,
        h@.hits == h.hits,
        h@.misses == h.misses,
        h@.upstream_errors == h.upstream_errors,
        h@.hit_rate == h.hit_rate@,
        opt_health(Some(h)) == Some(h@),
        opt_health(None) is None,
{
}

/// What comes of an upstream request stands for its body, or for the error with its status and
/// text.
pub proof fn law_upstream_outcomes(status: u16, body: String, e: ParallelError, bytes: Vec<u8>)
    ensures
        (ParallelError::Upstream { status, body })@ == (ErrorView::Upstream { status, body: body@ }),
        ParallelError::Transport(body)@ == ErrorView::Transport(body@),
        answer_view(Ok(bytes)) == Ok::<Seq<u8>, ErrorView>(bytes@),
        answer_view(Err(e)) == Err::<Seq<u8>, ErrorView>(e@),
{
}

/// An upstream document stands for its members by name, in order, and for the values in each; what
/// is shown of it stands for its results and warnings.
pub proof fn law_document_parts(
    ms: Vec<(String, Member)>,
    items: Vec<serde_json::Value>,
    v: serde_json::Value,
    m: Member,
    p: Projection,
)
    ensures
        Document::Object(ms)@ == DocumentView::Object(members_view(ms@)),
        Document::Other(v)@ == DocumentView::Other(v),
        members_view(ms@).len() == ms@.len(),
        forall|i: int|
            0 <= i < ms@.len() ==> #[trigger] members_view(ms@)[i] == (ms@[i].0@, ms@[i].1@),
        Member::Array(items)@ == MemberView::Array(items@),
        Member::Other(v)@ == MemberView::Other(v),
        opt_member_view(Some(m)) == Some(m@),
        opt_member_view(None) is None,
        p@.results == p.results@,
        p@.warnings == p.warnings@,
{
}

} // verus!
