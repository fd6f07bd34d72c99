//! Whatever a query gives is found in the request, whatever else it gives.

use vstd::prelude::*;

use crate::handlers::begun;
use crate::model::{parsed_mode, RequestView, SearchMode};
use crate::query::{IncomingView, QueryView, RepeatedView};
use crate::request_laws::{given, given_excerpt, given_fetch, given_source};

verus! {

/// Each setting that a query gives stands in the settings of the request, and each that it does not
/// give is not there; no setting depends on another being given.
pub proof fn law_query_gives_each_setting(q: QueryView, repeated: RepeatedView)
    requires
        q.request(repeated) is Ok,
    ensures
        q.location matches Some(l) ==> {
            let r = q.request(repeated)->Ok_0;
            r.advanced_settings is Some && r.advanced_settings->0.location == Some(l)
        },
        q.max_results matches Some(n) ==> {
            let r = q.request(repeated)->Ok_0;
            r.advanced_settings is Some && r.advanced_settings->0.max_results == Some(n)
        },
        given(q.request(repeated)->Ok_0).location == q.location,
        given(q.request(repeated)->Ok_0).max_results == q.max_results,
        given_excerpt(q.request(repeated)->Ok_0) == q.max_chars_per_result,
        given_fetch(q.request(repeated)->Ok_0).max_age_seconds == q.max_age_seconds,
        given_fetch(q.request(repeated)->Ok_0).timeout_seconds is None,
        !given_fetch(q.request(repeated)->Ok_0).disable_cache_fallback,
        given_source(q.request(repeated)->Ok_0).after_date == q.after_date,
        q.include_domains.len() > 0 ==> given_source(q.request(repeated)->Ok_0).include_domains
            == q.include_domains,
        q.include_domains.len() == 0 ==> given_source(q.request(repeated)->Ok_0).include_domains
            == repeated.include_domains,
        q.exclude_domains.len() > 0 ==> given_source(q.request(repeated)->Ok_0).exclude_domains
            == q.exclude_domains,
        q.exclude_domains.len() == 0 ==> given_source(q.request(repeated)->Ok_0).exclude_domains
            == repeated.exclude_domains,
{
    let r = q.request(repeated)->Ok_0;
    assert(given_source(r).include_domains =~= if q.include_domains.len() > 0 {
        q.include_domains
    } else {
        repeated.include_domains
    });
    assert(given_source(r).exclude_domains =~= if q.exclude_domains.len() > 0 {
        q.exclude_domains
    } else {
        repeated.exclude_domains
    });
}

/// Settings are there exactly where the query gives one of them.
pub proof fn law_query_gives_no_more_settings(q: QueryView, repeated: RepeatedView)
    requires
        q.request(repeated) is Ok,
    ensures
        given(q.request(repeated)->Ok_0).source_policy is Some <==> q.include_domains.len() > 0
            || repeated.include_domains.len() > 0 || q.exclude_domains.len() > 0
            || repeated.exclude_domains.len() > 0 || q.after_date is Some,
        given(q.request(repeated)->Ok_0).fetch_policy is Some <==> q.max_age_seconds is Some,
        given(q.request(repeated)->Ok_0).excerpt_settings is Some
            <==> q.max_chars_per_result is Some,
        q.request(repeated)->Ok_0.advanced_settings is Some <==> q.include_domains.len() > 0
            || repeated.include_domains.len() > 0 || q.exclude_domains.len() > 0
            || repeated.exclude_domains.len() > 0 || q.after_date is Some
            || q.max_age_seconds is Some || q.max_chars_per_result is Some || q.location is Some
            || q.max_results is Some,
{
}

/// What a query asks stands in the request: the listed queries, or else all that are repeated under
/// either name, in order; and each other part as it is.
pub proof fn law_query_asks_what_it_says(q: QueryView, repeated: RepeatedView)
    ensures
        q.request(repeated) is Err <==> q.mode is Some && parsed_mode(q.mode->0) is Err,
        q.request(repeated) is Err ==> q.request(repeated)->Err_0 == parsed_mode(q.mode->0)->Err_0,
        q.request(repeated) matches Ok(r) ==> {
            &&& q.search_queries.len() > 0 ==> r.search_queries == q.search_queries
            &&& q.search_queries.len() == 0 ==> r.search_queries == repeated.q
                + repeated.search_queries
            &&& r.objective == q.objective
            &&& r.max_chars_total == q.max_chars_total
            &&& r.session_id == q.session_id
            &&& r.client_model == q.client_model
            &&& q.mode is None ==> r.mode is None
            &&& q.mode is Some ==> r.mode is Some && parsed_mode(q.mode->0) == Ok::<
                SearchMode,
                Seq<char>,
            >(r.mode->0)
        },
{
}

/// A request in a body is taken as it is; what cannot be read is told, with where it stood.
pub proof fn law_incoming_requests(
    q: QueryView,
    repeated: RepeatedView,
    body: RequestView,
    e: Seq<char>,
)
    ensures
        IncomingView::Query(Ok(q), repeated).request() == q.request(repeated),
        IncomingView::Query(Err(e), repeated).request() == Err::<RequestView, Seq<char>>(
            "invalid query string: "@ + e,
        ),
        IncomingView::Body(Ok(body)).request() == Ok::<RequestView, Seq<char>>(body),
        IncomingView::Body(Err(e)).request() == Err::<RequestView, Seq<char>>(
            "invalid search request: "@ + e,
        ),
{
}

/// A query and a body that ask for the same request go on alike.
pub proof fn law_query_and_body_go_on_alike(
    q: QueryView,
    repeated: RepeatedView,
    body: RequestView,
    m: SearchMode,
)
    requires
        q.request(repeated) == Ok::<RequestView, Seq<char>>(body),
    ensures
        begun(IncomingView::Query(Ok(q), repeated), m) == begun(IncomingView::Body(Ok(body)), m),
{
}

} // verus!
