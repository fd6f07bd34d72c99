//! Search requests as they come in: the query of a GET request, or a JSON body.

use vstd::prelude::*;

use crate::model::{
    parsed_mode, AdvancedSearchSettings, ExcerptSettings, FetchPolicy, FetchView, RequestView,
    SearchMode, SearchRequest, SettingsView, SourcePolicy, SourceView,
};
use crate::text::{opt_text, texts};

verus! {

/// The query of a GET request, as it was read.
pub struct SearchQuery {
    pub objective: Option<String>,
    pub search_queries: Vec<String>,
    pub mode: Option<String>,
    pub max_chars_total: Option<i64>,
    pub session_id: Option<String>,
    pub client_model: Option<String>,
    pub location: Option<String>,
    pub max_results: Option<i64>,
    pub max_chars_per_result: Option<i64>,
    pub max_age_seconds: Option<i64>,
    pub after_date: Option<String>,
    pub include_domains: Vec<String>,
    pub exclude_domains: Vec<String>,
}

/// All the values that stand in the query under the names that may be repeated.
pub struct RepeatedQuery {
    pub q: Vec<String>,
    pub search_queries: Vec<String>,
    pub include_domains: Vec<String>,
    pub exclude_domains: Vec<String>,
}

/// A search request as it came in, or why it could not be read.
pub enum Incoming {
    /// In the query.
    Query(Result<SearchQuery, String>, RepeatedQuery),
    /// In the body.
    Body(Result<SearchRequest, String>),
}

/// What a query holds.
#[verifier::ext_equal]
pub struct QueryView {
    pub objective: Option<Seq<char>>,
    pub search_queries: Seq<Seq<char>>,
    pub mode: Option<Seq<char>>,
    pub max_chars_total: Option<i64>,
    pub session_id: Option<Seq<char>>,
    pub client_model: Option<Seq<char>>,
    pub location: Option<Seq<char>>,
    pub max_results: Option<i64>,
    pub max_chars_per_result: Option<i64>,
    pub max_age_seconds: Option<i64>,
    pub after_date: Option<Seq<char>>,
    pub include_domains: Seq<Seq<char>>,
    pub exclude_domains: Seq<Seq<char>>,
}

/// What the repeated names hold.
#[verifier::ext_equal]
pub struct RepeatedView {
    pub q: Seq<Seq<char>>,
    pub search_queries: Seq<Seq<char>>,
    pub include_domains: Seq<Seq<char>>,
    pub exclude_domains: Seq<Seq<char>>,
}

/// What an incoming request holds.
#[verifier::ext_equal]
pub enum IncomingView {
    Query(Result<QueryView, Seq<char>>, RepeatedView),
    Body(Result<RequestView, Seq<char>>),
}

impl View for SearchQuery {
    type V = QueryView;

    open spec fn view(&self) -> QueryView {
        QueryView {
            objective: opt_text(self.objective),
            search_queries: texts(self.search_queries@),
            mode: opt_text(self.mode),
            max_chars_total: self.max_chars_total,
            session_id: opt_text(self.session_id),
            client_model: opt_text(self.client_model),
            location: opt_text(self.location),
            max_results: self.max_results,
            max_chars_per_result: self.max_chars_per_result,
            max_age_seconds: self.max_age_seconds,
            after_date: opt_text(self.after_date),
            include_domains: texts(self.include_domains@),
            exclude_domains: texts(self.exclude_domains@),
        }
    }
}

impl View for RepeatedQuery {
    type V = RepeatedView;

    open spec fn view(&self) -> RepeatedView {
        RepeatedView {
            q: texts(self.q@),
            search_queries: texts(self.search_queries@),
            include_domains: texts(self.include_domains@),
            exclude_domains: texts(self.exclude_domains@),
        }
    }
}

/// What the result of reading a request holds.
pub open spec fn request_view(r: Result<SearchRequest, String>) -> Result<RequestView, Seq<char>> {
    match r {
        Ok(request) => Ok(request@),
        Err(e) => Err(e@),
    }
}

impl View for Incoming {
    type V = IncomingView;

    open spec fn view(&self) -> IncomingView {
        match self {
            Incoming::Query(Ok(query), repeated) => IncomingView::Query(Ok(query@), repeated@),
            Incoming::Query(Err(e), repeated) => IncomingView::Query(Err(e@), repeated@),
            Incoming::Body(r) => IncomingView::Body(request_view(*r)),
        }
    }
}

/// `first`, or `second` where `first` is empty.
pub open spec fn or_else(first: Seq<Seq<char>>, second: Seq<Seq<char>>) -> Seq<Seq<char>> {
    if first.len() == 0 {
        second
    } else {
        first
    }
}

impl QueryView {
    /// Where results may come from, where the query says anything of it.
    pub open spec fn source_policy(self, repeated: RepeatedView) -> Option<SourceView> {
        let include_domains = or_else(self.include_domains, repeated.include_domains);
        let exclude_domains = or_else(self.exclude_domains, repeated.exclude_domains);
        if include_domains.len() == 0 && exclude_domains.len() == 0 && self.after_date is None {
            None
        } else {
            Some(SourceView { include_domains, exclude_domains, after_date: self.after_date })
        }
    }

    /// How fresh pages have to be, where the query says it.
    pub open spec fn fetch_policy(self) -> Option<FetchView> {
        match self.max_age_seconds {
            Some(_) => Some(
                FetchView {
                    max_age_seconds: self.max_age_seconds,
                    timeout_seconds: None,
                    disable_cache_fallback: false,
                },
            ),
            None => None,
        }
    }

    /// How long excerpts may be, where the query says it.
    pub open spec fn excerpt_settings(self) -> Option<ExcerptSettings> {
        match self.max_chars_per_result {
            Some(_) => Some(ExcerptSettings { max_chars_per_result: self.max_chars_per_result }),
            None => None,
        }
    }

    /// The rarer settings, where the query holds any of them.
    pub open spec fn settings(self, repeated: RepeatedView) -> Option<SettingsView> {
        if self.source_policy(repeated) is None && self.fetch_policy() is None
            && self.excerpt_settings() is None && self.location is None && self.max_results is None {
            None
        } else {
            Some(
                SettingsView {
                    source_policy: self.source_policy(repeated),
                    fetch_policy: self.fetch_policy(),
                    excerpt_settings: self.excerpt_settings(),
                    location: self.location,
                    max_results: self.max_results,
                },
            )
        }
    }

    /// The search request that the query asks for. It is refused only for a mode that there is not.
    pub open spec fn request(self, repeated: RepeatedView) -> Result<RequestView, Seq<char>> {
        if self.mode is Some && parsed_mode(self.mode->0) is Err {
            Err(parsed_mode(self.mode->0)->Err_0)
        } else {
            Ok(
                RequestView {
                    objective: self.objective,
                    search_queries: or_else(
                        self.search_queries,
                        repeated.q + repeated.search_queries,
                    ),
                    mode: match self.mode {
                        Some(m) => Some(parsed_mode(m)->Ok_0),
                        None => None,
                    },
                    max_chars_total: self.max_chars_total,
                    session_id: self.session_id,
                    client_model: self.client_model,
                    advanced_settings: self.settings(repeated),
                },
            )
        }
    }
}

impl IncomingView {
    /// The search request that came in, or what is answered where there is none.
    pub open spec fn request(self) -> Result<RequestView, Seq<char>> {
        match self {
            IncomingView::Query(Ok(query), repeated) => query.request(repeated),
            IncomingView::Query(Err(e), _) => Err("invalid query string: "@ + e),
            IncomingView::Body(Ok(request)) => Ok(request),
            IncomingView::Body(Err(e)) => Err("invalid search request: "@ + e),
        }
    }
}

/// `first`, or `second` where `first` is empty.
fn either(first: Vec<String>, second: Vec<String>) -> (r: Vec<String>)
    ensures
        texts(r@) == or_else(texts(first@), texts(second@)),
{
    if first.len() == 0 {
        second
    } else {
        first
    }
}

/// The search request that a query asks for.
pub fn parse_get_request(query: SearchQuery, repeated: RepeatedQuery) -> (r: Result<
    SearchRequest,
    String,
>)
    ensures
        request_view(r) == query@.request(repeated@),
{
    let ghost asked = query@;
    let ghost named = repeated@;
    let mut both = repeated.q;
    let mut more = repeated.search_queries;
    let ghost q = both@;
    let ghost rest = more@;
    both.append(&mut more);
    assert(texts(both@) == texts(q) + texts(rest));
    let search_queries = either(query.search_queries, both);
    let include_domains = either(query.include_domains, repeated.include_domains);
    let exclude_domains = either(query.exclude_domains, repeated.exclude_domains);
    let mode: Option<SearchMode> = match &query.mode {
        Some(m) => match SearchMode::parse(m.as_str()) {
            Ok(mode) => Some(mode),
            Err(e) => {
                return Err(e);
            },
        },
        None => None,
    };
    let source_policy: Option<SourcePolicy> = if include_domains.len() == 0 && exclude_domains.len()
        == 0 && query.after_date.is_none() {
        None
    } else {
        Some(SourcePolicy { include_domains, exclude_domains, after_date: query.after_date })
    };
    let fetch_policy: Option<FetchPolicy> = match query.max_age_seconds {
        Some(_) => {
            let mut policy = FetchPolicy::default();
            policy.max_age_seconds = query.max_age_seconds;
            Some(policy)
        },
        None => None,
    };
    let excerpt_settings: Option<ExcerptSettings> = match query.max_chars_per_result {
        Some(_) => Some(ExcerptSettings { max_chars_per_result: query.max_chars_per_result }),
        None => None,
    };
    let advanced_settings: Option<AdvancedSearchSettings> = if source_policy.is_none()
        && fetch_policy.is_none() && excerpt_settings.is_none() && query.location.is_none()
        && query.max_results.is_none() {
        None
    } else {
        Some(
            AdvancedSearchSettings {
                source_policy,
                fetch_policy,
                excerpt_settings,
                location: query.location,
                max_results: query.max_results,
            },
        )
    };
    let request = SearchRequest {
        objective: query.objective,
        search_queries,
        mode,
        max_chars_total: query.max_chars_total,
        session_id: query.session_id,
        client_model: query.client_model,
        advanced_settings,
    };
    assert(request@.advanced_settings == asked.settings(named));
    Ok(request)
}

/// The search request that came in, or what is answered where there is none.
pub fn parse_search_request(incoming: Incoming) -> (r: Result<SearchRequest, String>)
    ensures
        request_view(r) == incoming@.request(),
{
    match incoming {
        Incoming::Query(Ok(query), repeated) => parse_get_request(query, repeated),
        Incoming::Query(Err(e), _) => {
            let mut message = "invalid query string: ".to_string();
            message.append(e.as_str());
            Err(message)
        },
        Incoming::Body(Ok(request)) => Ok(request),
        Incoming::Body(Err(e)) => {
            let mut message = "invalid search request: ".to_string();
            message.append(e.as_str());
            Err(message)
        },
    }
}

} // verus!
