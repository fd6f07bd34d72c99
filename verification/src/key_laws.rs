//! What a cache key leaves out, and what it tells apart.

use vstd::prelude::*;
use vstd::utf8::encode_utf8;

use crate::json::{
    json_array, json_bool, json_member, json_opt_integer, json_opt_string, json_strings, opt_i64,
    opt_u64,
};
use crate::json_code::{
    lemma_bool_code, lemma_member_code, lemma_object_code, lemma_opt_integer_code,
    lemma_opt_string_code, lemma_string_array_code, splits,
};
use crate::key::{
    key_digest, key_json, key_members, keyword_bag, keyword_bags, lower_all, opt_mode_name, phrase,
    KeyView,
};
use crate::model::{
    collapsed_all, folded_all, law_domains_by_set, law_domains_idempotent, law_mode_name_reads_back,
    lemma_collapsed_blank, lemma_join_blank, lemma_nonblank_all, lemma_nonblank_by_set,
    lemma_nonblank_push, nonblank, RequestView, SearchMode, SettingsView, SourceView,
};
use crate::order::{
    law_sorted_once_by_set, lemma_sorted, lemma_sorted_by_contents, lemma_sorted_once, sorted,
    sorted_once,
};
use crate::text::{
    collapsed, is_white, law_collapse_is_idempotent, law_fold_is_idempotent, lower,
    lower_char, lemma_lower_keeps_white, lemma_lower_twice, lemma_words_are_plain,
    lemma_words_of_join, plain_word, plain_words, words,
};

verus! {

/// A bag of keywords depends only on which words there are, in small letters, and how often: not on
/// their order.
pub proof fn law_bag_ignores_word_order(p: Seq<char>, q: Seq<char>)
    requires
        lower_all(words(p)).to_multiset() == lower_all(words(q)).to_multiset(),
    ensures
        keyword_bag(p) == keyword_bag(q),
{
    lemma_sorted_by_contents(lower_all(words(p)), lower_all(words(q)));
}

/// A bag of keywords does not depend on how much white space is between the words or around them.
pub proof fn law_bag_ignores_spacing(p: Seq<char>, q: Seq<char>)
    requires
        collapsed(p) == collapsed(q),
    ensures
        keyword_bag(p) == keyword_bag(q),
{
    lemma_words_are_plain(p);
    lemma_words_are_plain(q);
    lemma_words_of_join(words(p));
    lemma_words_of_join(words(q));
}

pub proof fn lemma_words_of_lower(s: Seq<char>)
    ensures
        words(lower(s)) == lower_all(words(s)),
    decreases s.len(),
{
    let t = lower(s);
    if s.len() > 0 {
        lemma_words_of_lower(s.drop_last());
        lemma_words_are_plain(s.drop_last());
        assert(t.drop_last() == lower(s.drop_last()));
        lemma_lower_keeps_white(s.last());
        assert(t.last() == lower_char(s.last()));
        let before = words(s.drop_last());
        if !is_white(s.last()) {
            if s.len() > 1 {
                assert(t[t.len() - 2] == lower_char(s[s.len() - 2]));
                lemma_lower_keeps_white(s[s.len() - 2]);
            }
            if s.len() == 1 || is_white(s[s.len() - 2]) {
                assert(lower(seq![s.last()]) == seq![t.last()]);
                assert(lower_all(before.push(seq![s.last()])) == lower_all(before).push(
                    seq![t.last()],
                ));
            } else {
                let w = before.last();
                assert(s.drop_last().last() == s[s.len() - 2]);
                assert(before.len() > 0);
                assert(lower(w.push(s.last())) == lower(w).push(t.last()));
                assert(lower_all(before).last() == lower(w));
                assert(lower_all(before).drop_last() == lower_all(before.drop_last()));
                assert(lower_all(before.drop_last().push(w.push(s.last()))) == lower_all(
                    before.drop_last(),
                ).push(lower(w.push(s.last()))));
            }
        }
    } else {
        assert(words(t) == lower_all(words(s)));
    }
}

/// A bag of keywords does not depend on the case of ASCII letters.
pub proof fn law_bag_ignores_case(p: Seq<char>, q: Seq<char>)
    requires
        lower(p) == lower(q),
    ensures
        keyword_bag(p) == keyword_bag(q),
{
    lemma_words_of_lower(p);
    lemma_words_of_lower(q);
}

pub proof fn lemma_bag_tokens(q: Seq<char>)
    ensures
        plain_words(sorted(lower_all(words(q)))),
        lower_all(sorted(lower_all(words(q)))) == sorted(lower_all(words(q))),
        sorted(lower_all(words(q))).len() == words(q).len(),
{
    broadcast use vstd::seq_lib::group_to_multiset_ensures;
    let w = words(q);
    let l = lower_all(w);
    let s = sorted(l);
    lemma_words_are_plain(q);
    lemma_sorted(l);
    assert(s.to_multiset().len() == s.len());
    assert(l.to_multiset().len() == l.len());
    assert forall|i: int| 0 <= i < s.len() implies plain_word(#[trigger] s[i]) && lower(s[i])
        == s[i] by {
        assert(s.contains(s[i]));
        assert(s.to_multiset().count(s[i]) > 0);
        assert(l.contains(s[i]));
        let k = choose|k: int| 0 <= k < l.len() && l[k] == s[i];
        assert(l[k] == lower(w[k]));
        assert(plain_word(w[k]));
        lemma_lower_twice(w[k]);
        assert forall|j: int| 0 <= j < s[i].len() implies !is_white(#[trigger] s[i][j]) by {
            lemma_lower_keeps_white(w[k][j]);
            assert(!is_white(w[k][j]));
        }
    }
    assert(lower_all(s) == s);
}

/// Making a bag of keywords out of one changes nothing.
pub proof fn law_bag_is_idempotent(q: Seq<char>)
    ensures
        keyword_bag(keyword_bag(q)) == keyword_bag(q),
{
    let s = sorted(lower_all(words(q)));
    lemma_bag_tokens(q);
    lemma_words_of_join(s);
    lemma_sorted(lower_all(words(q)));
    crate::order::lemma_sorted_is_unique(s, s);
}

/// The session does not enter the key.
pub proof fn law_key_ignores_session(r: RequestView, session: Option<Seq<char>>)
    ensures
        key_digest((RequestView { session_id: session, ..r }).canonical()) == key_digest(
            r.canonical(),
        ),
{
}

/// Only which bags of keywords the queries make enters the key: neither the order of the queries
/// nor how often each occurs, and of each query neither word order nor case nor spacing.
pub proof fn law_key_ignores_query_order(r: RequestView, queries: Seq<Seq<char>>)
    requires
        keyword_bags(r.search_queries).to_set() == keyword_bags(queries).to_set(),
    ensures
        key_digest((RequestView { search_queries: queries, ..r }).canonical()) == key_digest(
            r.canonical(),
        ),
{
    let a = keyword_bags(r.search_queries);
    let b = keyword_bags(queries);
    lemma_nonblank_by_set(a, b);
    law_sorted_once_by_set(nonblank(a), nonblank(b));
}

/// Only which domains are listed, folded, enters the key: neither their order nor case nor how
/// often each is listed.
pub proof fn law_key_ignores_domain_order(
    r: RequestView,
    a: SettingsView,
    p: SourceView,
    include_domains: Seq<Seq<char>>,
    exclude_domains: Seq<Seq<char>>,
)
    requires
        r.advanced_settings == Some(a),
        a.source_policy == Some(p),
        folded_all(p.include_domains).to_set() == folded_all(include_domains).to_set(),
        folded_all(p.exclude_domains).to_set() == folded_all(exclude_domains).to_set(),
    ensures
        key_digest(
            (RequestView {
                advanced_settings: Some(
                    SettingsView {
                        source_policy: Some(
                            SourceView { include_domains, exclude_domains, ..p },
                        ),
                        ..a
                    },
                ),
                ..r
            }).canonical(),
        ) == key_digest(r.canonical()),
{
    law_domains_by_set(p.include_domains, include_domains);
    law_domains_by_set(p.exclude_domains, exclude_domains);
}

/// The key does not depend on the case of an objective, nor on its spacing; a blank one is none.
pub proof fn law_key_ignores_objective_case_and_spacing(r: RequestView, o: Option<Seq<char>>)
    requires
        phrase(r.objective) == phrase(o),
    ensures
        key_digest((RequestView { objective: o, ..r }).canonical()) == key_digest(r.canonical()),
{
}

/// The key does not depend on the case of the client's model, nor on its spacing; a blank one is
/// none.
pub proof fn law_key_ignores_model_case_and_spacing(r: RequestView, m: Option<Seq<char>>)
    requires
        phrase(r.client_model) == phrase(m),
    ensures
        key_digest((RequestView { client_model: m, ..r }).canonical()) == key_digest(r.canonical()),
{
}

/// The key does not depend on the case of the location, nor on white space around it; a blank one
/// is none.
pub proof fn law_key_ignores_location_case_and_margins(
    r: RequestView,
    a: SettingsView,
    l: Option<Seq<char>>,
)
    requires
        r.advanced_settings == Some(a),
        a.normalized().location == (SettingsView { location: l, ..a }).normalized().location,
    ensures
        key_digest(
            (RequestView {
                advanced_settings: Some(SettingsView { location: l, ..a }),
                ..r
            }).canonical(),
        ) == key_digest(r.canonical()),
{
}

/// Keys that differ have different JSON texts.
pub proof fn law_key_json_tells_apart(k: KeyView, l: KeyView)
    requires
        key_json(k) == key_json(l),
    ensures
        k == l,
{
    let p = key_members(k);
    let q = key_members(l);
    lemma_opt_string_code(k.objective, l.objective);
    lemma_string_array_code(k.search_queries, l.search_queries);
    lemma_opt_string_code(opt_mode_name(k.mode), opt_mode_name(l.mode));
    lemma_opt_integer_code(opt_i64(k.max_chars_total), opt_i64(l.max_chars_total));
    lemma_opt_string_code(k.client_model, l.client_model);
    lemma_opt_string_code(k.location, l.location);
    lemma_opt_integer_code(opt_i64(k.max_results), opt_i64(l.max_results));
    lemma_opt_integer_code(opt_i64(k.max_chars_per_result), opt_i64(l.max_chars_per_result));
    lemma_string_array_code(k.include_domains, l.include_domains);
    lemma_string_array_code(k.exclude_domains, l.exclude_domains);
    lemma_opt_string_code(k.after_date, l.after_date);
    lemma_opt_integer_code(opt_i64(k.max_age_seconds), opt_i64(l.max_age_seconds));
    lemma_opt_integer_code(opt_u64(k.timeout_seconds), opt_u64(l.timeout_seconds));
    lemma_bool_code(k.disable_cache_fallback, l.disable_cache_fallback);
    lemma_key_members(k, l);
    lemma_object_code(p, q);
    assert forall|i: int| 0 <= i < 14 implies p[i] == q[i] by {}
    assert(p[0] == q[0] && p[1] == q[1] && p[2] == q[2] && p[3] == q[3] && p[4] == q[4] && p[5]
        == q[5] && p[6] == q[6] && p[7] == q[7] && p[8] == q[8] && p[9] == q[9] && p[10] == q[10]
        && p[11] == q[11] && p[12] == q[12] && p[13] == q[13]);
    lemma_member_code("objective"@, json_opt_string(k.objective), json_opt_string(l.objective));
    lemma_member_code(
        "search_queries"@,
        json_array(json_strings(k.search_queries)),
        json_array(json_strings(l.search_queries)),
    );
    lemma_member_code(
        "mode"@,
        json_opt_string(opt_mode_name(k.mode)),
        json_opt_string(opt_mode_name(l.mode)),
    );
    lemma_member_code(
        "max_chars_total"@,
        json_opt_integer(opt_i64(k.max_chars_total)),
        json_opt_integer(opt_i64(l.max_chars_total)),
    );
    lemma_member_code(
        "client_model"@,
        json_opt_string(k.client_model),
        json_opt_string(l.client_model),
    );
    lemma_member_code("location"@, json_opt_string(k.location), json_opt_string(l.location));
    lemma_member_code(
        "max_results"@,
        json_opt_integer(opt_i64(k.max_results)),
        json_opt_integer(opt_i64(l.max_results)),
    );
    lemma_member_code(
        "max_chars_per_result"@,
        json_opt_integer(opt_i64(k.max_chars_per_result)),
        json_opt_integer(opt_i64(l.max_chars_per_result)),
    );
    lemma_member_code(
        "include_domains"@,
        json_array(json_strings(k.include_domains)),
        json_array(json_strings(l.include_domains)),
    );
    lemma_member_code(
        "exclude_domains"@,
        json_array(json_strings(k.exclude_domains)),
        json_array(json_strings(l.exclude_domains)),
    );
    lemma_member_code("after_date"@, json_opt_string(k.after_date), json_opt_string(l.after_date));
    lemma_member_code(
        "max_age_seconds"@,
        json_opt_integer(opt_i64(k.max_age_seconds)),
        json_opt_integer(opt_i64(l.max_age_seconds)),
    );
    lemma_member_code(
        "timeout_seconds"@,
        json_opt_integer(opt_u64(k.timeout_seconds)),
        json_opt_integer(opt_u64(l.timeout_seconds)),
    );
    lemma_member_code(
        "disable_cache_fallback"@,
        json_bool(k.disable_cache_fallback),
        json_bool(l.disable_cache_fallback),
    );
    if k.mode is Some && l.mode is Some {
        law_mode_name_reads_back(k.mode->0);
        law_mode_name_reads_back(l.mode->0);
    }
    assert(k == l);
}

/// Each member of a key's JSON object shows where it ends.
proof fn lemma_key_members(k: KeyView, l: KeyView)
    ensures
        forall|i: int|
            0 <= i < key_members(k).len() ==> #[trigger] key_members(k)[i].len() > 0
                && key_members(k)[i][0] == '"',
        forall|i: int|
            0 <= i < key_members(l).len() ==> #[trigger] key_members(l)[i].len() > 0
                && key_members(l)[i][0] == '"',
        forall|i: int|
            0 <= i < key_members(k).len() && i < key_members(l).len() ==> #[trigger] splits(
                key_members(k)[i],
                key_members(l)[i],
            ),
{
    lemma_opt_string_code(k.objective, l.objective);
    lemma_string_array_code(k.search_queries, l.search_queries);
    lemma_opt_string_code(opt_mode_name(k.mode), opt_mode_name(l.mode));
    lemma_opt_integer_code(opt_i64(k.max_chars_total), opt_i64(l.max_chars_total));
    lemma_opt_string_code(k.client_model, l.client_model);
    lemma_opt_string_code(k.location, l.location);
    lemma_opt_integer_code(opt_i64(k.max_results), opt_i64(l.max_results));
    lemma_opt_integer_code(opt_i64(k.max_chars_per_result), opt_i64(l.max_chars_per_result));
    lemma_string_array_code(k.include_domains, l.include_domains);
    lemma_string_array_code(k.exclude_domains, l.exclude_domains);
    lemma_opt_string_code(k.after_date, l.after_date);
    lemma_opt_integer_code(opt_i64(k.max_age_seconds), opt_i64(l.max_age_seconds));
    lemma_opt_integer_code(opt_u64(k.timeout_seconds), opt_u64(l.timeout_seconds));
    lemma_bool_code(k.disable_cache_fallback, l.disable_cache_fallback);
    assert forall|n: Seq<char>, v: Seq<char>| #[trigger] json_member(n, v).len() > 0 && json_member(
        n,
        v,
    )[0] == '"' by {}
    assert forall|n: Seq<char>, v: Seq<char>, w: Seq<char>| splits(v, w) implies #[trigger] splits(
        json_member(n, v),
        json_member(n, w),
    ) by {
        lemma_member_code(n, v, w);
    }
}

/// Requests that differ in what decides the answer are told apart by the bytes that are hashed for
/// the key.
pub proof fn law_hashed_bytes_tell_apart(r: RequestView, s: RequestView)
    requires
        r.canonical() != s.canonical(),
    ensures
        encode_utf8(key_json(r.canonical())) != encode_utf8(key_json(s.canonical())),
{
    let a = key_json(r.canonical());
    let b = key_json(s.canonical());
    if encode_utf8(a) == encode_utf8(b) {
        vstd::utf8::encode_utf8_decode_utf8(a);
        vstd::utf8::encode_utf8_decode_utf8(b);
        law_key_json_tells_apart(r.canonical(), s.canonical());
    }
}

pub proof fn lemma_bags_of_collapsed(s: Seq<Seq<char>>)
    ensures
        nonblank(keyword_bags(nonblank(collapsed_all(s)))) == nonblank(keyword_bags(s)),
        nonblank(collapsed_all(s)).len() == nonblank(keyword_bags(s)).len(),
    decreases s.len(),
{
    if s.len() > 0 {
        let head = s.drop_last();
        let t = s.last();
        let c = collapsed(t);
        lemma_bags_of_collapsed(head);
        assert(s == head.push(t));
        assert(collapsed_all(s) == collapsed_all(head).push(c));
        assert(keyword_bags(s) == keyword_bags(head).push(keyword_bag(t)));
        lemma_nonblank_push(collapsed_all(head), c);
        lemma_nonblank_push(keyword_bags(head), keyword_bag(t));
        lemma_collapsed_blank(t);
        lemma_bag_tokens(t);
        lemma_join_blank(sorted(lower_all(words(t))));
        let kept = nonblank(collapsed_all(head));
        if c.len() > 0 {
            assert(keyword_bags(kept.push(c)) == keyword_bags(kept).push(keyword_bag(c)));
            lemma_nonblank_push(keyword_bags(kept), keyword_bag(c));
            law_collapse_is_idempotent(t);
            law_bag_ignores_spacing(c, t);
        }
    } else {
        assert(collapsed_all(s) == s);
        assert(nonblank(s) == s);
        assert(keyword_bags(s) == s);
    }
}

impl KeyView {
    /// The key of the request put in shape: with the default mode where it names none, and with the
    /// objective as the query where it has none.
    pub open spec fn completed(self, default_mode: SearchMode) -> KeyView {
        KeyView {
            mode: match self.mode {
                Some(m) => Some(m),
                None => Some(default_mode),
            },
            search_queries: match self.objective {
                Some(o) => if self.search_queries.len() == 0 {
                    seq![keyword_bag(o)]
                } else {
                    self.search_queries
                },
                None => self.search_queries,
            },
            ..self
        }
    }
}

proof fn lemma_sorted_once_few(s: Seq<Seq<char>>)
    ensures
        sorted_once(s).len() == 0 <==> s.len() == 0,
        s.len() == 1 ==> sorted_once(s) == s,
{
    let t = sorted_once(s);
    lemma_sorted_once(s);
    if s.len() > 0 {
        assert(s.to_set().contains(s[0]));
        assert(t.to_set().contains(s[0]));
        assert(t.contains(s[0]));
    }
    if t.len() > 0 {
        assert(t.to_set().contains(t[0]));
        assert(s.to_set().contains(t[0]));
        assert(s.contains(t[0]));
    }
    if s.len() == 1 && t.len() > 1 {
        assert(t.to_set().contains(t[1]));
        assert(s.to_set().contains(t[1]));
        assert(s.contains(t[1]));
    }
}

/// The key of a request put in shape is decided by what its key held before, and has a query exactly
/// where the request has one.
pub proof fn law_key_of_normalized(r: RequestView, m: SearchMode)
    ensures
        r.normalized(m).canonical() == r.canonical().completed(m),
        r.canonical().completed(m).search_queries.len() == 0 <==> r.normalized(
            m,
        ).search_queries.len() == 0,
{
    let n = r.normalized(m);
    let queries = nonblank(collapsed_all(r.search_queries));
    lemma_bags_of_collapsed(r.search_queries);
    lemma_sorted_once_few(nonblank(keyword_bags(r.search_queries)));
    if let Some(o) = r.objective {
        let c = collapsed(o);
        law_collapse_is_idempotent(o);
        assert(lower(c).len() == c.len());
        assert(phrase(n.objective) == phrase(r.objective));
        if queries.len() == 0 && c.len() > 0 {
            let bags = keyword_bags(seq![c]);
            assert(bags == seq![keyword_bag(c)]);
            lemma_lower_twice(c);
            law_bag_ignores_case(c, lower(c));
            lemma_collapsed_blank(c);
            lemma_bag_tokens(c);
            lemma_join_blank(sorted(lower_all(words(c))));
            lemma_nonblank_all(bags);
            lemma_sorted_once_few(bags);
        }
    }
    if let Some(a) = r.advanced_settings {
        if let Some(l) = a.location {
            law_fold_is_idempotent(l);
        }
        if let Some(p) = a.source_policy {
            law_domains_idempotent(p.include_domains);
            law_domains_idempotent(p.exclude_domains);
        }
    }
    assert(n.canonical().search_queries == r.canonical().completed(m).search_queries);
}

/// Putting a request in shape does not change its key, where it names a mode and no objective has to
/// stand for its queries: one of them is not blank, or there is no objective that is not.
pub proof fn law_normalizing_keeps_key(r: RequestView, m: SearchMode)
    requires
        r.mode is Some,
        nonblank(collapsed_all(r.search_queries)).len() > 0 || r.normal_objective() is None,
    ensures
        key_digest(r.normalized(m).canonical()) == key_digest(r.canonical()),
{
    law_key_of_normalized(r, m);
    lemma_bags_of_collapsed(r.search_queries);
    lemma_sorted_once_few(nonblank(keyword_bags(r.search_queries)));
    assert(r.normal_objective() is None ==> r.canonical().objective is None);
}

} // verus!
