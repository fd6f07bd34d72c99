//! What is asked is what is sent and what is kept apart: each part of a request finds its place in
//! the request that is sent upstream, and in the key.

use vstd::prelude::*;
use vstd::relations::sorted_by;
use vstd::utf8::encode_utf8;

use crate::hash::blake3_hex;
use crate::key::{key_digest, key_json, keyword_bag, keyword_bags, lower_all, phrase};
use crate::key_laws::{
    law_bag_ignores_word_order, law_key_json_tells_apart, lemma_bag_tokens, lemma_words_of_lower,
};
use crate::model::{
    collapsed_all, folded_all, law_domains_form, lemma_collapsed_blank, lemma_join_blank,
    lemma_nonblank_contains, lemma_nonblank_push, mode_name, nonblank, normal_domains, parsed_mode,
    FetchView, RequestView, SearchMode, SettingsView, SourceView,
};
use crate::order::{law_sorted_once_by_set, lemma_sorted, lemma_sorted_once, sorted, text_order};
use crate::text::{
    collapsed, folded, join, law_collapse_keeps_words, lemma_words_of_join, lower, words,
};
use crate::text_laws::{all_white, law_blank_text_has_no_words, law_trim_cuts_white_ends};

verus! {

/// The settings of a request: none of them where it has no settings.
pub open spec fn given(r: RequestView) -> SettingsView {
    match r.advanced_settings {
        Some(a) => a,
        None => SettingsView {
            source_policy: None,
            fetch_policy: None,
            excerpt_settings: None,
            location: None,
            max_results: None,
        },
    }
}

/// The sources of a request: any where it says nothing of them.
pub open spec fn given_source(r: RequestView) -> SourceView {
    match given(r).source_policy {
        Some(p) => p,
        None => SourceView {
            include_domains: Seq::empty(),
            exclude_domains: Seq::empty(),
            after_date: None,
        },
    }
}

/// How fresh pages have to be for a request: nothing where it says nothing of it.
pub open spec fn given_fetch(r: RequestView) -> FetchView {
    match given(r).fetch_policy {
        Some(f) => f,
        None => FetchView {
            max_age_seconds: None,
            timeout_seconds: None,
            disable_cache_fallback: false,
        },
    }
}

/// The length of excerpts that a request asks for.
pub open spec fn given_excerpt(r: RequestView) -> Option<i64> {
    match given(r).excerpt_settings {
        Some(e) => e.max_chars_per_result,
        None => None,
    }
}

/// The bits of the time limit of a request.
pub open spec fn given_timeout_bits(r: RequestView) -> Option<u64> {
    match given_fetch(r).timeout_seconds {
        Some(t) => Some(t.bits),
        None => None,
    }
}

/// The words of the text that is there, in small letters.
pub open spec fn small_words(o: Option<Seq<char>>) -> Seq<Seq<char>> {
    match o {
        Some(t) => lower_all(words(t)),
        None => Seq::empty(),
    }
}

/// The text that is there without white space around it, in small letters; nothing for none.
pub open spec fn small_text(o: Option<Seq<char>>) -> Seq<char> {
    match o {
        Some(t) => folded(t),
        None => Seq::empty(),
    }
}

/// The domains of a list that are not blank, folded.
pub open spec fn domain_set(s: Seq<Seq<char>>) -> Set<Seq<char>> {
    Set::new(
        |d: Seq<char>|
            d.len() > 0 && exists|i: int| 0 <= i < s.len() && folded(#[trigger] s[i]) == d,
    )
}

/// Whether the words of `q`, in small letters, are those of some query of `s`, in whatever order.
pub open spec fn asked_among(q: Seq<char>, s: Seq<Seq<char>>) -> bool {
    exists|j: int|
        0 <= j < s.len() && lower_all(words(#[trigger] s[j])).to_multiset() == lower_all(
            words(q),
        ).to_multiset()
}

/// Whether each query of `s` that is not blank is asked by `t` too.
pub open spec fn asks_all_of(s: Seq<Seq<char>>, t: Seq<Seq<char>>) -> bool {
    forall|i: int| 0 <= i < s.len() && words(s[i]).len() > 0 ==> asked_among(#[trigger] s[i], t)
}

/// A mode is read exactly where its name stands, whatever the case and the white space around it;
/// anything else is told to be no mode.
pub proof fn law_modes_are_read_by_name(value: Seq<char>)
    ensures
        parsed_mode(value) == Ok::<SearchMode, Seq<char>>(SearchMode::Turbo) <==> folded(value)
            == "turbo"@,
        parsed_mode(value) == Ok::<SearchMode, Seq<char>>(SearchMode::Fast) <==> folded(value)
            == "fast"@,
        parsed_mode(value) == Ok::<SearchMode, Seq<char>>(SearchMode::Basic) <==> folded(value)
            == "basic"@,
        parsed_mode(value) == Ok::<SearchMode, Seq<char>>(SearchMode::Advanced) <==> folded(value)
            == "advanced"@,
        parsed_mode(value) is Err ==> parsed_mode(value)->Err_0 == "invalid mode '"@ + folded(value)
            + "'; expected turbo, fast, basic, or advanced"@,
        mode_name(SearchMode::Turbo) == "turbo"@,
        mode_name(SearchMode::Fast) == "fast"@,
        mode_name(SearchMode::Basic) == "basic"@,
        mode_name(SearchMode::Advanced) == "advanced"@,
{
    reveal_strlit("turbo");
    reveal_strlit("fast");
    reveal_strlit("basic");
    reveal_strlit("advanced");
    assert("turbo"@.len() == 5 && "turbo"@[0] == 't');
    assert("basic"@.len() == 5 && "basic"@[0] == 'b');
    assert("fast"@.len() == 4);
    assert("advanced"@.len() == 8);
}

/// What is put in shape keeps all that has no shape of its own, and names a mode: its own, or the
/// default where it names none.
pub proof fn law_normalizing_keeps_the_rest(r: RequestView, m: SearchMode)
    ensures
        r.normalized(m).session_id == r.session_id,
        r.normalized(m).client_model == r.client_model,
        r.normalized(m).max_chars_total == r.max_chars_total,
        r.mode is Some ==> r.normalized(m).mode == r.mode,
        r.mode is None ==> r.normalized(m).mode == Some(m),
        r.normalized(m).advanced_settings is Some <==> r.advanced_settings is Some,
        given(r.normalized(m)).fetch_policy == given(r).fetch_policy,
        given(r.normalized(m)).excerpt_settings == given(r).excerpt_settings,
        given(r.normalized(m)).max_results == given(r).max_results,
        given(r.normalized(m)).source_policy is Some <==> given(r).source_policy is Some,
        given_source(r.normalized(m)).after_date == given_source(r).after_date,
{
}

proof fn lemma_fold_blank(t: Seq<char>)
    ensures
        folded(t).len() == 0 <==> all_white(t),
{
    let u = crate::text::trim(t);
    law_trim_cuts_white_ends(t);
    let (a, b) = choose|a: Seq<char>, b: Seq<char>|
        #![trigger all_white(a), all_white(b)]
        all_white(a) && all_white(b) && t == a + u + b;
    assert(folded(t).len() == u.len());
    if u.len() > 0 {
        assert(t[a.len() as int] == u[0]);
    } else {
        assert forall|i: int| 0 <= i < t.len() implies crate::text::is_white(#[trigger] t[i]) by {
            if i < a.len() {
                assert(t[i] == a[i]);
            } else {
                assert(t[i] == b[i - a.len()]);
            }
        }
    }
}

/// The location is sent folded, and left out where it is blank.
pub proof fn law_normalized_location(r: RequestView, m: SearchMode)
    ensures
        given(r).location is None ==> given(r.normalized(m)).location is None,
        given(r).location matches Some(l) ==> (if all_white(l) {
            given(r.normalized(m)).location is None
        } else {
            given(r.normalized(m)).location == Some(folded(l))
        }),
{
    if let Some(l) = given(r).location {
        lemma_fold_blank(l);
    }
}

proof fn lemma_normal_domains(s: Seq<Seq<char>>)
    ensures
        sorted_by(normal_domains(s), text_order()),
        normal_domains(s).no_duplicates(),
        normal_domains(s).to_set() == domain_set(s),
{
    let f = folded_all(s);
    let d = normal_domains(s);
    law_domains_form(s);
    lemma_sorted_once(nonblank(f));
    assert forall|x: Seq<char>| d.to_set().contains(x) <==> domain_set(s).contains(x) by {
        lemma_nonblank_contains(f, x);
        assert(nonblank(f).to_set().contains(x) <==> nonblank(f).contains(x));
        if f.contains(x) {
            let i = choose|i: int| 0 <= i < f.len() && f[i] == x;
            assert(folded(s[i]) == x);
        }
        if domain_set(s).contains(x) {
            let i = choose|i: int| 0 <= i < s.len() && folded(#[trigger] s[i]) == x;
            assert(f[i] == x);
        }
    }
    assert(d.to_set() =~= domain_set(s));
}

/// The domains are sent in order, each once: those that are listed and not blank, folded, and no
/// others.
pub proof fn law_normalized_domains(r: RequestView, m: SearchMode)
    ensures
        given_source(r.normalized(m)).include_domains.to_set() == domain_set(
            given_source(r).include_domains,
        ),
        given_source(r.normalized(m)).exclude_domains.to_set() == domain_set(
            given_source(r).exclude_domains,
        ),
        given_source(r.normalized(m)).include_domains.no_duplicates(),
        given_source(r.normalized(m)).exclude_domains.no_duplicates(),
        sorted_by(given_source(r.normalized(m)).include_domains, text_order()),
        sorted_by(given_source(r.normalized(m)).exclude_domains, text_order()),
{
    let p = given_source(r);
    lemma_normal_domains(p.include_domains);
    lemma_normal_domains(p.exclude_domains);
    let none = Seq::<Seq<char>>::empty();
    assert(none.to_set() =~= domain_set(none));
    assert(sorted_by(none, text_order()));
}

/// The objective is sent with its white space collapsed, and left out where it is blank.
pub proof fn law_normalized_objective(r: RequestView, m: SearchMode)
    ensures
        r.objective is None ==> r.normalized(m).objective is None,
        r.objective matches Some(o) ==> (if all_white(o) {
            r.normalized(m).objective is None
        } else {
            r.normalized(m).objective == Some(collapsed(o))
        }),
{
    if let Some(o) = r.objective {
        lemma_collapsed_blank(o);
        law_blank_text_has_no_words(o);
    }
}

proof fn lemma_all_blank(s: Seq<Seq<char>>)
    ensures
        nonblank(collapsed_all(s)).len() == 0 <==> (forall|i: int|
            0 <= i < s.len() ==> all_white(#[trigger] s[i])),
    decreases s.len(),
{
    if s.len() > 0 {
        let t = s.drop_last();
        lemma_all_blank(t);
        assert(s == t.push(s.last()));
        assert(collapsed_all(s) == collapsed_all(t).push(collapsed(s.last())));
        lemma_nonblank_push(collapsed_all(t), collapsed(s.last()));
        lemma_collapsed_blank(s.last());
        law_blank_text_has_no_words(s.last());
        assert(forall|i: int| 0 <= i < t.len() ==> t[i] == s[i]);
        if nonblank(collapsed_all(s)).len() == 0 {
            assert forall|i: int| 0 <= i < s.len() implies all_white(#[trigger] s[i]) by {
                if i < t.len() {
                    assert(all_white(t[i]));
                }
            }
        }
        if forall|i: int| 0 <= i < s.len() ==> all_white(#[trigger] s[i]) {
            assert(all_white(s[s.len() - 1]));
            assert forall|i: int| 0 <= i < t.len() implies all_white(#[trigger] t[i]) by {
                assert(all_white(s[i]));
            }
        }
    } else {
        assert(collapsed_all(s) == s);
        assert(nonblank(s).len() == 0);
    }
}

/// All queries that are not blank are sent, in the order in which they stand, each with its white
/// space collapsed: one more query behind the others is sent behind them, unless it is blank. Where
/// all are blank the objective is sent as the query, unless it is blank too.
pub proof fn law_queries_are_sent_in_order(r: RequestView, q: Seq<char>, m: SearchMode)
    ensures
        (forall|i: int| 0 <= i < r.search_queries.len() ==> all_white(#[trigger] r.search_queries[i]))
            ==> r.normalized(m).search_queries == (match r.objective {
            Some(o) => if all_white(o) {
                Seq::empty()
            } else {
                seq![collapsed(o)]
            },
            None => Seq::empty(),
        }),
        all_white(q) ==> (RequestView {
            search_queries: r.search_queries.push(q),
            ..r
        }).normalized(m).search_queries == r.normalized(m).search_queries,
        !all_white(q) ==> (RequestView {
            search_queries: r.search_queries.push(q),
            ..r
        }).normalized(m).search_queries == (if forall|i: int|
            0 <= i < r.search_queries.len() ==> all_white(#[trigger] r.search_queries[i]) {
            seq![collapsed(q)]
        } else {
            r.normalized(m).search_queries.push(collapsed(q))
        }),
{
    let s = r.search_queries;
    lemma_all_blank(s);
    assert(collapsed_all(s.push(q)) == collapsed_all(s).push(collapsed(q)));
    lemma_nonblank_push(collapsed_all(s), collapsed(q));
    lemma_collapsed_blank(q);
    law_blank_text_has_no_words(q);
    if let Some(o) = r.objective {
        lemma_collapsed_blank(o);
        law_blank_text_has_no_words(o);
    }
    if nonblank(collapsed_all(s)).len() == 0 {
        assert(nonblank(collapsed_all(s)) == Seq::<Seq<char>>::empty());
        assert(nonblank(collapsed_all(s)).push(collapsed(q)) == seq![collapsed(q)]);
    }
}

/// Each setting that decides the answer is in the key as it is given, whatever else is given.
pub proof fn law_key_holds_each_setting(r: RequestView)
    ensures
        r.canonical().mode == r.mode,
        r.canonical().max_chars_total == r.max_chars_total,
        r.canonical().max_results == given(r).max_results,
        r.canonical().max_chars_per_result == given_excerpt(r),
        r.canonical().after_date == given_source(r).after_date,
        r.canonical().max_age_seconds == given_fetch(r).max_age_seconds,
        r.canonical().timeout_seconds == given_timeout_bits(r),
        r.canonical().disable_cache_fallback == given_fetch(r).disable_cache_fallback,
{
}

/// Changing the number of results asked for, and nothing else, changes the text of the key.
pub proof fn law_key_tells_result_counts_apart(
    r: RequestView,
    a: SettingsView,
    m: Option<i64>,
    n: Option<i64>,
)
    requires
        m != n,
    ensures
        key_json(
            (RequestView {
                advanced_settings: Some(SettingsView { max_results: m, ..a }),
                ..r
            }).canonical(),
        ) != key_json(
            (RequestView {
                advanced_settings: Some(SettingsView { max_results: n, ..a }),
                ..r
            }).canonical(),
        ),
{
    let x = RequestView { advanced_settings: Some(SettingsView { max_results: m, ..a }), ..r };
    let y = RequestView { advanced_settings: Some(SettingsView { max_results: n, ..a }), ..r };
    if key_json(x.canonical()) == key_json(y.canonical()) {
        law_key_json_tells_apart(x.canonical(), y.canonical());
        law_key_holds_each_setting(x);
        law_key_holds_each_setting(y);
    }
}

/// Words are made small one by one.
pub proof fn law_words_are_made_small_each(ws: Seq<Seq<char>>)
    ensures
        lower_all(ws).len() == ws.len(),
        forall|i: int| 0 <= i < ws.len() ==> #[trigger] lower_all(ws)[i] == lower(ws[i]),
{
}

proof fn lemma_lower_join(ws: Seq<Seq<char>>)
    ensures
        lower(join(ws, seq![' '])) == join(lower_all(ws), seq![' ']),
    decreases ws.len(),
{
    let sep = seq![' '];
    if ws.len() > 1 {
        let t = ws.drop_last();
        lemma_lower_join(t);
        assert(lower_all(ws).drop_last() == lower_all(t));
        assert(lower_all(ws).last() == lower(ws.last()));
        assert(lower(join(t, sep) + sep + ws.last()) == lower(join(t, sep)) + sep + lower(
            ws.last(),
        ));
    } else if ws.len() == 1 {
        assert(lower_all(ws)[0] == lower(ws[0]));
    } else {
        assert(lower(join(ws, sep)) == join(lower_all(ws), sep));
    }
}

proof fn lemma_phrase(o: Option<Seq<char>>)
    ensures
        phrase(o) is None <==> small_words(o).len() == 0,
        phrase(o) matches Some(p) ==> words(p) == small_words(o) && p == join(
            small_words(o),
            seq![' '],
        ),
{
    if let Some(t) = o {
        let c = collapsed(t);
        law_collapse_keeps_words(t);
        lemma_words_of_lower(c);
        lemma_collapsed_blank(t);
        lemma_lower_join(words(t));
        assert(lower(c).len() == c.len());
        assert(lower_all(words(t)).len() == words(t).len());
    }
}

/// Objective and client's model are in the key by their words in small letters, in order, with one
/// space between neighbours; they are not where they hold no word.
pub proof fn law_key_holds_phrases(r: RequestView)
    ensures
        r.canonical().objective is None <==> small_words(r.objective).len() == 0,
        r.canonical().objective matches Some(p) ==> words(p) == small_words(r.objective) && p
            == join(small_words(r.objective), seq![' ']),
        r.canonical().client_model is None <==> small_words(r.client_model).len() == 0,
        r.canonical().client_model matches Some(p) ==> words(p) == small_words(r.client_model) && p
            == join(small_words(r.client_model), seq![' ']),
{
    lemma_phrase(r.objective);
    lemma_phrase(r.client_model);
}

/// The location is in the key folded, and is not where it is blank.
pub proof fn law_key_holds_location(r: RequestView)
    ensures
        r.canonical().location is None <==> small_text(given(r).location).len() == 0,
        r.canonical().location matches Some(l) ==> l == small_text(given(r).location),
{
}

/// The domains are in the key in order, each once: those that are listed and not blank, folded, and
/// no others.
pub proof fn law_key_holds_domains(r: RequestView)
    ensures
        r.canonical().include_domains.to_set() == domain_set(given_source(r).include_domains),
        r.canonical().exclude_domains.to_set() == domain_set(given_source(r).exclude_domains),
        r.canonical().include_domains.no_duplicates(),
        r.canonical().exclude_domains.no_duplicates(),
        sorted_by(r.canonical().include_domains, text_order()),
        sorted_by(r.canonical().exclude_domains, text_order()),
{
    let p = given_source(r);
    lemma_normal_domains(p.include_domains);
    lemma_normal_domains(p.exclude_domains);
    let none = Seq::<Seq<char>>::empty();
    assert(none.to_set() =~= domain_set(none));
    assert(sorted_by(none, text_order()));
}

/// A bag of keywords holds the words of the query in small letters, each as often as it stands
/// there, in the order of texts, with one space between neighbours.
pub proof fn law_bag_holds_the_words(q: Seq<char>)
    ensures
        words(keyword_bag(q)).to_multiset() == lower_all(words(q)).to_multiset(),
        sorted_by(words(keyword_bag(q)), text_order()),
        collapsed(keyword_bag(q)) == keyword_bag(q),
        keyword_bag(q).len() == 0 <==> words(q).len() == 0,
{
    let s = sorted(lower_all(words(q)));
    lemma_bag_tokens(q);
    lemma_words_of_join(s);
    lemma_sorted(lower_all(words(q)));
    lemma_join_blank(s);
}

/// The queries are in the key as bags of keywords, in order, each once: those of the queries that
/// hold a word, and no others.
pub proof fn law_key_holds_queries(r: RequestView, b: Seq<char>)
    ensures
        r.canonical().search_queries.no_duplicates(),
        sorted_by(r.canonical().search_queries, text_order()),
        r.canonical().search_queries.contains(b) <==> exists|i: int|
            0 <= i < r.search_queries.len() && words(r.search_queries[i]).len() > 0 && keyword_bag(
                #[trigger] r.search_queries[i],
            ) == b,
{
    let bags = keyword_bags(r.search_queries);
    let k = r.canonical().search_queries;
    lemma_sorted_once(nonblank(bags));
    lemma_nonblank_contains(bags, b);
    assert(k.contains(b) <==> k.to_set().contains(b));
    assert(nonblank(bags).contains(b) <==> nonblank(bags).to_set().contains(b));
    if bags.contains(b) && b.len() > 0 {
        let i = choose|i: int| 0 <= i < bags.len() && bags[i] == b;
        law_bag_holds_the_words(r.search_queries[i]);
        assert(keyword_bag(r.search_queries[i]) == b);
    }
    if exists|i: int|
        0 <= i < r.search_queries.len() && words(r.search_queries[i]).len() > 0 && keyword_bag(
            #[trigger] r.search_queries[i],
        ) == b {
        let i = choose|i: int|
            0 <= i < r.search_queries.len() && words(r.search_queries[i]).len() > 0 && keyword_bag(
                #[trigger] r.search_queries[i],
            ) == b;
        law_bag_holds_the_words(r.search_queries[i]);
        assert(bags[i] == b);
    }
}

/// Requests with one key ask the same: the same settings, the same words of objective and client's
/// model in the same order, the same location and domains, and queries of the same words.
pub proof fn law_one_key_asks_one_thing(r: RequestView, s: RequestView)
    requires
        r.canonical() == s.canonical(),
    ensures
        r.mode == s.mode,
        r.max_chars_total == s.max_chars_total,
        given(r).max_results == given(s).max_results,
        given_excerpt(r) == given_excerpt(s),
        given_source(r).after_date == given_source(s).after_date,
        given_fetch(r).max_age_seconds == given_fetch(s).max_age_seconds,
        given_timeout_bits(r) == given_timeout_bits(s),
        given_fetch(r).disable_cache_fallback == given_fetch(s).disable_cache_fallback,
        small_words(r.objective) == small_words(s.objective),
        small_words(r.client_model) == small_words(s.client_model),
        small_text(given(r).location) == small_text(given(s).location),
        domain_set(given_source(r).include_domains) == domain_set(given_source(s).include_domains),
        domain_set(given_source(r).exclude_domains) == domain_set(given_source(s).exclude_domains),
        asks_all_of(r.search_queries, s.search_queries),
        asks_all_of(s.search_queries, r.search_queries),
{
    law_key_holds_each_setting(r);
    law_key_holds_each_setting(s);
    law_key_holds_phrases(r);
    law_key_holds_phrases(s);
    law_key_holds_location(r);
    law_key_holds_location(s);
    law_key_holds_domains(r);
    law_key_holds_domains(s);
    assert(small_words(r.objective) =~= small_words(s.objective));
    assert(small_words(r.client_model) =~= small_words(s.client_model));
    assert(small_text(given(r).location) =~= small_text(given(s).location));
    lemma_queries_alike(r, s);
    lemma_queries_alike(s, r);
}

proof fn lemma_queries_alike(r: RequestView, s: RequestView)
    requires
        r.canonical() == s.canonical(),
    ensures
        asks_all_of(r.search_queries, s.search_queries),
{
    assert forall|i: int|
        0 <= i < r.search_queries.len() && words(r.search_queries[i]).len()
            > 0 implies asked_among(#[trigger] r.search_queries[i], s.search_queries) by {
        let b = keyword_bag(r.search_queries[i]);
        law_key_holds_queries(r, b);
        law_key_holds_queries(s, b);
        assert(r.canonical().search_queries.contains(b));
        let j = choose|j: int|
            0 <= j < s.search_queries.len() && words(s.search_queries[j]).len() > 0 && keyword_bag(
                #[trigger] s.search_queries[j],
            ) == b;
        law_bag_holds_the_words(r.search_queries[i]);
        law_bag_holds_the_words(s.search_queries[j]);
        assert(lower_all(words(s.search_queries[j])).to_multiset() == lower_all(
            words(r.search_queries[i]),
        ).to_multiset());
    }
}

/// Requests that ask the same have one key, whatever their session, the order of their queries and
/// of the words in each, the order of their domains, letter case and white space.
pub proof fn law_one_thing_has_one_key(r: RequestView, s: RequestView)
    requires
        r.mode == s.mode,
        r.max_chars_total == s.max_chars_total,
        given(r).max_results == given(s).max_results,
        given_excerpt(r) == given_excerpt(s),
        given_source(r).after_date == given_source(s).after_date,
        given_fetch(r).max_age_seconds == given_fetch(s).max_age_seconds,
        given_timeout_bits(r) == given_timeout_bits(s),
        given_fetch(r).disable_cache_fallback == given_fetch(s).disable_cache_fallback,
        small_words(r.objective) == small_words(s.objective),
        small_words(r.client_model) == small_words(s.client_model),
        small_text(given(r).location) == small_text(given(s).location),
        domain_set(given_source(r).include_domains) == domain_set(given_source(s).include_domains),
        domain_set(given_source(r).exclude_domains) == domain_set(given_source(s).exclude_domains),
        asks_all_of(r.search_queries, s.search_queries),
        asks_all_of(s.search_queries, r.search_queries),
    ensures
        r.canonical() == s.canonical(),
        key_digest(r.canonical()) == key_digest(s.canonical()),
{
    law_key_holds_phrases(r);
    law_key_holds_phrases(s);
    law_key_holds_location(r);
    law_key_holds_location(s);
    lemma_domains_alike(r, s);
    let a = nonblank(keyword_bags(r.search_queries));
    let b = nonblank(keyword_bags(s.search_queries));
    assert forall|x: Seq<char>| a.to_set().contains(x) <==> b.to_set().contains(x) by {
        lemma_bag_carries_over(r.search_queries, s.search_queries, x);
        lemma_bag_carries_over(s.search_queries, r.search_queries, x);
        assert(a.contains(x) <==> a.to_set().contains(x));
        assert(b.contains(x) <==> b.to_set().contains(x));
    }
    assert(a.to_set() =~= b.to_set());
    law_sorted_once_by_set(a, b);
    assert(r.canonical() == s.canonical());
}

proof fn lemma_bag_carries_over(s: Seq<Seq<char>>, t: Seq<Seq<char>>, x: Seq<char>)
    requires
        asks_all_of(s, t),
    ensures
        nonblank(keyword_bags(s)).contains(x) ==> nonblank(keyword_bags(t)).contains(x),
{
    let p = keyword_bags(s);
    let q = keyword_bags(t);
    lemma_nonblank_contains(p, x);
    lemma_nonblank_contains(q, x);
    if p.contains(x) && x.len() > 0 {
        let i = choose|i: int| 0 <= i < p.len() && p[i] == x;
        law_bag_holds_the_words(s[i]);
        assert(asked_among(s[i], t));
        let j = choose|j: int|
            0 <= j < t.len() && lower_all(words(#[trigger] t[j])).to_multiset() == lower_all(
                words(s[i]),
            ).to_multiset();
        law_bag_ignores_word_order(t[j], s[i]);
        assert(q[j] == x);
    }
}

proof fn lemma_domains_alike(r: RequestView, s: RequestView)
    requires
        domain_set(given_source(r).include_domains) == domain_set(given_source(s).include_domains),
        domain_set(given_source(r).exclude_domains) == domain_set(given_source(s).exclude_domains),
    ensures
        r.canonical().include_domains == s.canonical().include_domains,
        r.canonical().exclude_domains == s.canonical().exclude_domains,
{
    law_key_holds_domains(r);
    law_key_holds_domains(s);
    crate::order::lemma_text_order_is_total();
    crate::order::lemma_same_set_same_multiset(
        r.canonical().include_domains,
        s.canonical().include_domains,
    );
    crate::order::lemma_same_set_same_multiset(
        r.canonical().exclude_domains,
        s.canonical().exclude_domains,
    );
    vstd::seq_lib::lemma_sorted_unique(
        r.canonical().include_domains,
        s.canonical().include_domains,
        text_order(),
    );
    vstd::seq_lib::lemma_sorted_unique(
        r.canonical().exclude_domains,
        s.canonical().exclude_domains,
        text_order(),
    );
}

/// Whether there are two data with one BLAKE3 digest.
pub open spec fn digests_collide() -> bool {
    exists|a: Seq<u8>, b: Seq<u8>| a != b && #[trigger] blake3_hex(a) == #[trigger] blake3_hex(b)
}

/// Requests that ask different things are kept under different keys, unless BLAKE3 has one digest
/// for two data.
pub proof fn law_different_things_have_different_keys(r: RequestView, s: RequestView)
    requires
        r.canonical() != s.canonical(),
    ensures
        key_digest(r.canonical()) != key_digest(s.canonical()) || digests_collide(),
{
    let a = encode_utf8(key_json(r.canonical()));
    let b = encode_utf8(key_json(s.canonical()));
    crate::key_laws::law_hashed_bytes_tell_apart(r, s);
    if key_digest(r.canonical()) == key_digest(s.canonical()) {
        assert(blake3_hex(a) == blake3_hex(b));
    }
}

} // verus!
