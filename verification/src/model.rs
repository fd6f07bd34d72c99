//! Search requests: what they ask, and the shape in which they are sent upstream.

use vstd::prelude::*;

use crate::order::{drop_repeats, sort_rows, sorted_once};
use crate::text::{
    chars_of, collapse_ws, collapsed, fold, folded, join, lower, opt_text, rows, strings_of, texts,
    words,
};

verus! {

/// How much work the upstream service puts into a search.
#[derive(Clone, Copy, Debug, PartialEq, Eq, Structural)]
pub enum SearchMode {
    Turbo,
    Fast,
    Basic,
    Advanced,
}

impl Default for SearchMode {
    fn default() -> (r: Self)
        ensures
            r == SearchMode::Advanced,
    {
        SearchMode::Advanced
    }
}

/// The name of a mode.
pub open spec fn mode_name(mode: SearchMode) -> Seq<char> {
    match mode {
        SearchMode::Turbo => "turbo"@,
        SearchMode::Fast => "fast"@,
        SearchMode::Basic => "basic"@,
        SearchMode::Advanced => "advanced"@,
    }
}

/// The mode with the name `name`.
pub open spec fn named_mode(name: Seq<char>) -> Option<SearchMode> {
    if name == "turbo"@ {
        Some(SearchMode::Turbo)
    } else if name == "fast"@ {
        Some(SearchMode::Fast)
    } else if name == "basic"@ {
        Some(SearchMode::Basic)
    } else if name == "advanced"@ {
        Some(SearchMode::Advanced)
    } else {
        None
    }
}

/// What is said of a mode that there is not.
pub open spec fn bad_mode(name: Seq<char>) -> Seq<char> {
    "invalid mode '"@ + name + "'; expected turbo, fast, basic, or advanced"@
}

/// The mode that `value` names, whatever its case and the white space around it.
pub open spec fn parsed_mode(value: Seq<char>) -> Result<SearchMode, Seq<char>> {
    match named_mode(folded(value)) {
        Some(mode) => Ok(mode),
        None => Err(bad_mode(folded(value))),
    }
}

/// A result whose error is text.
pub open spec fn result_view<T>(r: Result<T, String>) -> Result<T, Seq<char>> {
    match r {
        Ok(t) => Ok(t),
        Err(e) => Err(e@),
    }
}

impl SearchMode {
    /// The mode that `value` names, whatever its case and the white space around it.
    pub fn parse(value: &str) -> (r: Result<Self, String>)
        ensures
            result_view(r) == parsed_mode(value@),
    {
        let name = fold(value);
        if name == "turbo".to_string() {
            Ok(SearchMode::Turbo)
        } else if name == "fast".to_string() {
            Ok(SearchMode::Fast)
        } else if name == "basic".to_string() {
            Ok(SearchMode::Basic)
        } else if name == "advanced".to_string() {
            Ok(SearchMode::Advanced)
        } else {
            let mut message = "invalid mode '".to_string();
            message.append(name.as_str());
            message.append("'; expected turbo, fast, basic, or advanced");
            Err(message)
        }
    }

    /// The name of the mode.
    pub fn name(self) -> (r: String)
        ensures
            r@ == mode_name(self),
    {
        match self {
            SearchMode::Turbo => "turbo".to_string(),
            SearchMode::Fast => "fast".to_string(),
            SearchMode::Basic => "basic".to_string(),
            SearchMode::Advanced => "advanced".to_string(),
        }
    }
}

/// Reading the name of a mode gives the mode back.
pub proof fn law_mode_name_reads_back(mode: SearchMode)
    ensures
        named_mode(mode_name(mode)) == Some(mode),
        parsed_mode(mode_name(mode)) == Ok::<SearchMode, Seq<char>>(mode),
{
    reveal_strlit("turbo");
    reveal_strlit("fast");
    reveal_strlit("basic");
    reveal_strlit("advanced");
    assert("turbo"@[0] == 't');
    assert("fast"@[0] == 'f');
    assert("basic"@[0] == 'b');
    assert("advanced"@[0] == 'a');
    let name = mode_name(mode);
    assert(forall|i: int| 0 <= i < name.len() ==> crate::text::lower_char(#[trigger] name[i]) == name[i]);
    assert(lower(name) == name);
    assert(crate::text::trim(name) == name);
}

/// A time limit in seconds, with a fraction: the bits of the double-precision number, by which it
/// is told apart, and the JSON text by which it is sent.
#[derive(Clone, Debug)]
pub struct TimeoutSeconds {
    pub bits: u64,
    pub json: String,
}

/// What a time limit holds.
#[verifier::ext_equal]
pub struct TimeoutView {
    pub bits: u64,
    pub json: Seq<char>,
}

impl View for TimeoutSeconds {
    type V = TimeoutView;

    open spec fn view(&self) -> TimeoutView {
        TimeoutView { bits: self.bits, json: self.json@ }
    }
}

/// A search request.
#[derive(Clone, Debug)]
pub struct SearchRequest {
    pub objective: Option<String>,
    pub search_queries: Vec<String>,
    pub mode: Option<SearchMode>,
    pub max_chars_total: Option<i64>,
    pub session_id: Option<String>,
    pub client_model: Option<String>,
    pub advanced_settings: Option<AdvancedSearchSettings>,
}

/// The rarer settings of a search request.
#[derive(Clone, Debug)]
pub struct AdvancedSearchSettings {
    pub source_policy: Option<SourcePolicy>,
    pub fetch_policy: Option<FetchPolicy>,
    pub excerpt_settings: Option<ExcerptSettings>,
    pub location: Option<String>,
    pub max_results: Option<i64>,
}

/// Where results may come from.
#[derive(Clone, Debug)]
pub struct SourcePolicy {
    pub include_domains: Vec<String>,
    pub exclude_domains: Vec<String>,
    pub after_date: Option<String>,
}

/// How fresh fetched pages have to be.
#[derive(Clone, Debug)]
pub struct FetchPolicy {
    pub max_age_seconds: Option<i64>,
    pub timeout_seconds: Option<TimeoutSeconds>,
    pub disable_cache_fallback: bool,
}

/// How long excerpts may be.
#[derive(Clone, Debug)]
pub struct ExcerptSettings {
    pub max_chars_per_result: Option<i64>,
}

/// What a search request holds.
#[verifier::ext_equal]
pub struct RequestView {
    pub objective: Option<Seq<char>>,
    pub search_queries: Seq<Seq<char>>,
    pub mode: Option<SearchMode>,
    pub max_chars_total: Option<i64>,
    pub session_id: Option<Seq<char>>,
    pub client_model: Option<Seq<char>>,
    pub advanced_settings: Option<SettingsView>,
}

/// What the rarer settings hold.
#[verifier::ext_equal]
pub struct SettingsView {
    pub source_policy: Option<SourceView>,
    pub fetch_policy: Option<FetchView>,
    pub excerpt_settings: Option<ExcerptSettings>,
    pub location: Option<Seq<char>>,
    pub max_results: Option<i64>,
}

/// What a source policy holds.
#[verifier::ext_equal]
pub struct SourceView {
    pub include_domains: Seq<Seq<char>>,
    pub exclude_domains: Seq<Seq<char>>,
    pub after_date: Option<Seq<char>>,
}

/// What a fetch policy holds.
#[verifier::ext_equal]
pub struct FetchView {
    pub max_age_seconds: Option<i64>,
    pub timeout_seconds: Option<TimeoutView>,
    pub disable_cache_fallback: bool,
}

impl View for SourcePolicy {
    type V = SourceView;

    open spec fn view(&self) -> SourceView {
        SourceView {
            include_domains: texts(self.include_domains@),
            exclude_domains: texts(self.exclude_domains@),
            after_date: opt_text(self.after_date),
        }
    }
}

impl View for FetchPolicy {
    type V = FetchView;

    open spec fn view(&self) -> FetchView {
        FetchView {
            max_age_seconds: self.max_age_seconds,
            timeout_seconds: match self.timeout_seconds {
                Some(t) => Some(t@),
                None => None,
            },
            disable_cache_fallback: self.disable_cache_fallback,
        }
    }
}

impl View for AdvancedSearchSettings {
    type V = SettingsView;

    open spec fn view(&self) -> SettingsView {
        SettingsView {
            source_policy: match self.source_policy {
                Some(p) => Some(p@),
                None => None,
            },
            fetch_policy: match self.fetch_policy {
                Some(p) => Some(p@),
                None => None,
            },
            excerpt_settings: self.excerpt_settings,
            location: opt_text(self.location),
            max_results: self.max_results,
        }
    }
}

impl View for SearchRequest {
    type V = RequestView;

    open spec fn view(&self) -> RequestView {
        RequestView {
            objective: opt_text(self.objective),
            search_queries: texts(self.search_queries@),
            mode: self.mode,
            max_chars_total: self.max_chars_total,
            session_id: opt_text(self.session_id),
            client_model: opt_text(self.client_model),
            advanced_settings: match self.advanced_settings {
                Some(a) => Some(a@),
                None => None,
            },
        }
    }
}

impl Default for SearchRequest {
    fn default() -> (r: Self)
        ensures
            r@ == (RequestView {
                objective: None,
                search_queries: Seq::empty(),
                mode: None,
                max_chars_total: None,
                session_id: None,
                client_model: None,
                advanced_settings: None,
            }),
    {
        SearchRequest {
            objective: None,
            search_queries: Vec::new(),
            mode: None,
            max_chars_total: None,
            session_id: None,
            client_model: None,
            advanced_settings: None,
        }
    }
}

impl Default for AdvancedSearchSettings {
    fn default() -> (r: Self)
        ensures
            r@ == (SettingsView {
                source_policy: None,
                fetch_policy: None,
                excerpt_settings: None,
                location: None,
                max_results: None,
            }),
    {
        AdvancedSearchSettings {
            source_policy: None,
            fetch_policy: None,
            excerpt_settings: None,
            location: None,
            max_results: None,
        }
    }
}

impl Default for SourcePolicy {
    fn default() -> (r: Self)
        ensures
            r@ == (SourceView {
                include_domains: Seq::empty(),
                exclude_domains: Seq::empty(),
                after_date: None,
            }),
    {
        SourcePolicy { include_domains: Vec::new(), exclude_domains: Vec::new(), after_date: None }
    }
}

impl Default for FetchPolicy {
    fn default() -> (r: Self)
        ensures
            r@ == (FetchView {
                max_age_seconds: None,
                timeout_seconds: None,
                disable_cache_fallback: false,
            }),
    {
        FetchPolicy { max_age_seconds: None, timeout_seconds: None, disable_cache_fallback: false }
    }
}

impl Default for ExcerptSettings {
    fn default() -> (r: Self)
        ensures
            r == (ExcerptSettings { max_chars_per_result: None }),
    {
        ExcerptSettings { max_chars_per_result: None }
    }
}

/// The texts of `s` that are not empty.
pub open spec fn nonblank(s: Seq<Seq<char>>) -> Seq<Seq<char>> {
    s.filter(|t: Seq<char>| t.len() > 0)
}

/// The text, unless it is empty.
pub open spec fn unless_blank(t: Seq<char>) -> Option<Seq<char>> {
    if t.len() == 0 {
        None
    } else {
        Some(t)
    }
}

/// Each text of `s` with its white space collapsed.
pub open spec fn collapsed_all(s: Seq<Seq<char>>) -> Seq<Seq<char>> {
    s.map_values(|t: Seq<char>| collapsed(t))
}

/// Each text of `s` folded.
pub open spec fn folded_all(s: Seq<Seq<char>>) -> Seq<Seq<char>> {
    s.map_values(|t: Seq<char>| folded(t))
}

/// Domains in one form: folded, in order, none empty, each once.
pub open spec fn normal_domains(s: Seq<Seq<char>>) -> Seq<Seq<char>> {
    sorted_once(nonblank(folded_all(s)))
}

impl SourceView {
    /// The policy with its domains in one form.
    pub open spec fn normalized(self) -> SourceView {
        SourceView {
            include_domains: normal_domains(self.include_domains),
            exclude_domains: normal_domains(self.exclude_domains),
            ..self
        }
    }
}

impl SettingsView {
    /// The settings with location and domains in one form.
    pub open spec fn normalized(self) -> SettingsView {
        SettingsView {
            location: match self.location {
                Some(l) => unless_blank(folded(l)),
                None => None,
            },
            source_policy: match self.source_policy {
                Some(p) => Some(p.normalized()),
                None => None,
            },
            ..self
        }
    }
}

impl RequestView {
    /// The objective with its white space collapsed, unless nothing is left.
    pub open spec fn normal_objective(self) -> Option<Seq<char>> {
        match self.objective {
            Some(o) => unless_blank(collapsed(o)),
            None => None,
        }
    }

    /// The queries with their white space collapsed, those left empty dropped. Where none is left,
    /// the objective is the query.
    pub open spec fn normal_queries(self) -> Seq<Seq<char>> {
        let queries = nonblank(collapsed_all(self.search_queries));
        match self.normal_objective() {
            Some(o) => if queries.len() == 0 {
                seq![o]
            } else {
                queries
            },
            None => queries,
        }
    }

    /// The request as it is sent upstream.
    pub open spec fn normalized(self, default_mode: SearchMode) -> RequestView {
        RequestView {
            objective: self.normal_objective(),
            search_queries: self.normal_queries(),
            mode: match self.mode {
                Some(m) => Some(m),
                None => Some(default_mode),
            },
            advanced_settings: match self.advanced_settings {
                Some(a) => Some(a.normalized()),
                None => None,
            },
            ..self
        }
    }
}

/// A text put behind the others is kept unless it is empty.
pub proof fn lemma_nonblank_push(s: Seq<Seq<char>>, t: Seq<char>)
    ensures
        nonblank(s.push(t)) == if t.len() > 0 {
            nonblank(s).push(t)
        } else {
            nonblank(s)
        },
{
    s.lemma_filter_push(t, |t: Seq<char>| t.len() > 0);
}

/// The queries with their white space collapsed, those left empty dropped.
fn collapse_queries(v: &Vec<String>) -> (r: Vec<String>)
    ensures
        texts(r@) == nonblank(collapsed_all(texts(v@))),
{
    let mut r: Vec<String> = Vec::new();
    for i in 0..v.len()
        invariant
            texts(r@) == nonblank(collapsed_all(texts(v@).take(i as int))),
    {
        let ghost before = texts(r@);
        let ghost head = texts(v@).take(i as int);
        let q = collapse_ws(v[i].as_str());
        proof {
            assert(texts(v@).take(i + 1) == head.push(v@[i as int]@));
            assert(collapsed_all(head.push(v@[i as int]@)) == collapsed_all(head).push(q@));
            lemma_nonblank_push(collapsed_all(head), q@);
        }
        if !q.as_str().is_empty() {
            let ghost text = q@;
            r.push(q);
            assert(texts(r@) == before.push(text));
        }
    }
    assert(texts(v@).take(v@.len() as int) == texts(v@));
    r
}

/// Puts domains in one form: folded, in order, none empty, each once.
pub fn normalize_domains(domains: &mut Vec<String>)
    ensures
        texts(final(domains)@) == normal_domains(texts(old(domains)@)),
{
    let mut list: Vec<Vec<char>> = Vec::new();
    for i in 0..domains.len()
        invariant
            domains@ == old(domains)@,
            rows(list@) == nonblank(folded_all(texts(domains@).take(i as int))),
    {
        let ghost before = rows(list@);
        let ghost head = texts(domains@).take(i as int);
        let d = chars_of(fold(domains[i].as_str()).as_str());
        proof {
            assert(texts(domains@).take(i + 1) == head.push(domains@[i as int]@));
            assert(folded_all(head.push(domains@[i as int]@)) == folded_all(head).push(d@));
            lemma_nonblank_push(folded_all(head), d@);
        }
        if d.len() > 0 {
            let ghost text = d@;
            list.push(d);
            assert(rows(list@) == before.push(text));
        }
    }
    assert(texts(domains@).take(domains@.len() as int) == texts(domains@));
    *domains = strings_of(&drop_repeats(sort_rows(list)));
}

impl SearchRequest {
    /// Puts the request in the shape in which it is sent upstream: white space collapsed, empty
    /// parts dropped, the objective as the query where there is none, a mode chosen, location and
    /// domains in one form.
    pub fn normalize_for_upstream(&mut self, default_mode: SearchMode)
        ensures
            final(self)@ == old(self)@.normalized(default_mode),
    {
        let ghost was = self@;
        let mut objective: Option<String> = None;
        if let Some(o) = &self.objective {
            let c = collapse_ws(o.as_str());
            if !c.as_str().is_empty() {
                objective = Some(c);
            }
        }
        assert(opt_text(objective) == was.normal_objective());
        self.objective = objective;

        let mut queries = collapse_queries(&self.search_queries);
        if queries.len() == 0 {
            if let Some(o) = &self.objective {
                queries.push(o.clone());
                assert(texts(queries@) == seq![o@]);
            }
        }
        assert(texts(queries@) == was.normal_queries());
        self.search_queries = queries;

        if self.mode.is_none() {
            self.mode = Some(default_mode);
        }

        if let Some(settings) = &mut self.advanced_settings {
            normalize_settings(settings);
        }
    }
}

/// Puts location and domains in one form.
fn normalize_settings(settings: &mut AdvancedSearchSettings)
    ensures
        final(settings)@ == old(settings)@.normalized(),
{
    let mut location: Option<String> = None;
    if let Some(l) = &settings.location {
        let f = fold(l.as_str());
        if !f.as_str().is_empty() {
            location = Some(f);
        }
    }
    settings.location = location;
    if let Some(policy) = &mut settings.source_policy {
        normalize_domains(&mut policy.include_domains);
        normalize_domains(&mut policy.exclude_domains);
    }
}

/// A text is kept where it is there and not empty.
pub proof fn lemma_nonblank_contains(s: Seq<Seq<char>>, t: Seq<char>)
    ensures
        nonblank(s).contains(t) <==> s.contains(t) && t.len() > 0,
    decreases s.len(),
{
    if s.len() > 0 {
        let head = s.drop_last();
        let last = s.last();
        lemma_nonblank_contains(head, t);
        assert(s == head.push(last));
        lemma_nonblank_push(head, last);
        let kept = nonblank(head);
        if s.contains(t) && t.len() > 0 {
            let i = choose|i: int| 0 <= i < s.len() && s[i] == t;
            if i < head.len() {
                assert(head[i] == t);
                let k = choose|k: int| 0 <= k < kept.len() && kept[k] == t;
                assert(nonblank(s)[k] == t);
            } else {
                assert(nonblank(s)[kept.len() as int] == t);
            }
        }
        if nonblank(s).contains(t) {
            let k = choose|k: int| 0 <= k < nonblank(s).len() && nonblank(s)[k] == t;
            if k < kept.len() {
                assert(kept[k] == t);
                let i = choose|i: int| 0 <= i < head.len() && head[i] == t;
                assert(s[i] == t);
            } else {
                assert(s[s.len() - 1] == t);
            }
        }
    } else {
        assert(nonblank(s).len() == 0);
    }
}

/// Which texts are there decides which are kept.
pub proof fn lemma_nonblank_by_set(s: Seq<Seq<char>>, t: Seq<Seq<char>>)
    requires
        s.to_set() == t.to_set(),
    ensures
        nonblank(s).to_set() == nonblank(t).to_set(),
{
    assert forall|x: Seq<char>| nonblank(s).to_set().contains(x) <==> nonblank(t).to_set().contains(
        x,
    ) by {
        lemma_nonblank_contains(s, x);
        lemma_nonblank_contains(t, x);
        assert(s.contains(x) <==> s.to_set().contains(x));
        assert(t.contains(x) <==> t.to_set().contains(x));
    }
    assert(nonblank(s).to_set() =~= nonblank(t).to_set());
}

/// Where no text is empty all are kept.
pub proof fn lemma_nonblank_all(s: Seq<Seq<char>>)
    requires
        forall|i: int| 0 <= i < s.len() ==> #[trigger] s[i].len() > 0,
    ensures
        nonblank(s) == s,
    decreases s.len(),
{
    if s.len() > 0 {
        let head = s.drop_last();
        assert forall|i: int| 0 <= i < head.len() implies #[trigger] head[i].len() > 0 by {
            assert(s[i].len() > 0);
        }
        lemma_nonblank_all(head);
        assert(s == head.push(s.last()));
        lemma_nonblank_push(head, s.last());
        assert(s[s.len() - 1].len() > 0);
    } else {
        assert(nonblank(s) == s);
    }
}

/// What is kept is not empty.
pub proof fn lemma_nonblank_is_nonblank(s: Seq<Seq<char>>)
    ensures
        forall|i: int| 0 <= i < nonblank(s).len() ==> #[trigger] nonblank(s)[i].len() > 0,
{
    assert forall|i: int| 0 <= i < nonblank(s).len() implies #[trigger] nonblank(s)[i].len() > 0 by {
        assert(nonblank(s).contains(nonblank(s)[i]));
        lemma_nonblank_contains(s, nonblank(s)[i]);
    }
}

/// Only which domains there are, folded, decides their one form: neither order nor case nor white
/// space around them nor how often each is named.
pub proof fn law_domains_by_set(s: Seq<Seq<char>>, t: Seq<Seq<char>>)
    requires
        folded_all(s).to_set() == folded_all(t).to_set(),
    ensures
        normal_domains(s) == normal_domains(t),
{
    lemma_nonblank_by_set(folded_all(s), folded_all(t));
    crate::order::law_sorted_once_by_set(nonblank(folded_all(s)), nonblank(folded_all(t)));
}

/// Domains in one form are in order, none empty, each once, and each folded.
pub proof fn law_domains_form(s: Seq<Seq<char>>)
    ensures
        vstd::relations::sorted_by(normal_domains(s), crate::order::text_order()),
        normal_domains(s).no_duplicates(),
        forall|i: int|
            0 <= i < normal_domains(s).len() ==> #[trigger] normal_domains(s)[i].len() > 0
                && folded(normal_domains(s)[i]) == normal_domains(s)[i],
{
    let f = folded_all(s);
    let d = normal_domains(s);
    crate::order::lemma_sorted_once(nonblank(f));
    assert forall|i: int| 0 <= i < d.len() implies #[trigger] d[i].len() > 0 && folded(d[i])
        == d[i] by {
        assert(d.to_set().contains(d[i]));
        assert(nonblank(f).to_set().contains(d[i]));
        assert(nonblank(f).contains(d[i]));
        lemma_nonblank_contains(f, d[i]);
        let k = choose|k: int| 0 <= k < f.len() && f[k] == d[i];
        assert(f[k] == folded(s[k]));
        crate::text::law_fold_is_idempotent(s[k]);
    }
}

/// Putting domains in one form a second time changes nothing.
pub proof fn law_domains_idempotent(s: Seq<Seq<char>>)
    ensures
        normal_domains(normal_domains(s)) == normal_domains(s),
{
    let d = normal_domains(s);
    law_domains_form(s);
    assert(folded_all(d) == d);
    lemma_nonblank_all(d);
    crate::order::lemma_sorted_once_twice(nonblank(folded_all(s)));
}

/// Text with its white space collapsed is empty only where there are no words.
pub proof fn lemma_collapsed_blank(t: Seq<char>)
    ensures
        collapsed(t).len() == 0 <==> words(t).len() == 0,
{
    crate::text::lemma_words_are_plain(t);
    lemma_join_blank(words(t));
}

/// Words joined are empty only where there are none.
pub proof fn lemma_join_blank(ws: Seq<Seq<char>>)
    requires
        forall|i: int| 0 <= i < ws.len() ==> #[trigger] ws[i].len() > 0,
    ensures
        join(ws, seq![' ']).len() == 0 <==> ws.len() == 0,
{
    if ws.len() > 0 {
        assert(ws[0].len() > 0);
        assert(ws[ws.len() - 1].len() > 0);
    }
}

/// Putting a request in shape a second time changes nothing, whatever the default mode is then.
pub proof fn law_normalize_is_idempotent(r: RequestView, m: SearchMode, n: SearchMode)
    ensures
        r.normalized(m).normalized(n) == r.normalized(m),
{
    let a = r.normalized(m);
    let b = a.normalized(n);
    if let Some(o) = r.objective {
        crate::text::law_collapse_is_idempotent(o);
    }
    assert(b.objective == a.objective);
    let q = nonblank(collapsed_all(r.search_queries));
    lemma_nonblank_is_nonblank(collapsed_all(r.search_queries));
    assert forall|i: int| 0 <= i < a.search_queries.len() implies #[trigger]
        a.search_queries[i].len() > 0 && collapsed(a.search_queries[i]) == a.search_queries[i] by {
        if a.search_queries == q {
            assert(q[i].len() > 0);
            assert(q.contains(q[i]));
            lemma_nonblank_contains(collapsed_all(r.search_queries), q[i]);
            let k = choose|k: int|
                0 <= k < r.search_queries.len() && collapsed_all(r.search_queries)[k] == q[i];
            crate::text::law_collapse_is_idempotent(r.search_queries[k]);
        }
    }
    assert(collapsed_all(a.search_queries) == a.search_queries);
    lemma_nonblank_all(a.search_queries);
    assert(b.search_queries == a.search_queries);
    if let Some(s) = r.advanced_settings {
        if let Some(l) = s.location {
            crate::text::law_fold_is_idempotent(l);
        }
        if let Some(p) = s.source_policy {
            law_domains_idempotent(p.include_domains);
            law_domains_idempotent(p.exclude_domains);
        }
        assert(s.normalized().normalized() == s.normalized());
    }
}

/// A request in shape has a query exactly where it had a query or an objective that is not blank.
pub proof fn law_normalized_has_query(r: RequestView, m: SearchMode)
    ensures
        r.normalized(m).search_queries.len() > 0 <==> {
            ||| exists|i: int|
                0 <= i < r.search_queries.len() && words(#[trigger] r.search_queries[i]).len() > 0
            ||| r.objective is Some && words(r.objective->0).len() > 0
        },
{
    let all = collapsed_all(r.search_queries);
    let q = nonblank(all);
    if let Some(o) = r.objective {
        lemma_collapsed_blank(o);
    }
    if q.len() > 0 {
        lemma_nonblank_is_nonblank(all);
        assert(q[0].len() > 0);
        assert(q.contains(q[0]));
        lemma_nonblank_contains(all, q[0]);
        let k = choose|k: int| 0 <= k < all.len() && all[k] == q[0];
        lemma_collapsed_blank(r.search_queries[k]);
    }
    if exists|i: int|
        0 <= i < r.search_queries.len() && words(#[trigger] r.search_queries[i]).len() > 0 {
        let i = choose|i: int|
            0 <= i < r.search_queries.len() && words(#[trigger] r.search_queries[i]).len() > 0;
        lemma_collapsed_blank(r.search_queries[i]);
        assert(all[i] == collapsed(r.search_queries[i]));
        assert(all.contains(all[i]));
        lemma_nonblank_contains(all, all[i]);
        assert(q.contains(all[i]));
    }
}

} // verus!
