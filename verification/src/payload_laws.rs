//! The body that is sent upstream holds everything that the request asks, and nothing else.

use vstd::prelude::*;

use crate::json::{
    json_array, json_bool, json_member, json_object, json_opt_integer, json_opt_string, json_string,
    json_strings,
};
use crate::json_code::{
    is_terminator, lemma_cancel, lemma_join_code, lemma_member_code, lemma_opt_integer_code,
    lemma_opt_string_code, lemma_string_array_code, lemma_unbroken_splits, splits, terminated,
    unbroken,
};
use crate::model::{
    law_mode_name_reads_back, mode_name, ExcerptSettings, FetchView, RequestView, SettingsView,
    SourceView,
};
use crate::number::integer_text;
use crate::payload::{excerpt_json, integer_value, list_value, opt_member, string_value};
use crate::request_laws::{given, given_fetch};

verus! {

/// The members of an object, by name, with the text of the value where there is one.
pub open spec fn members_of(f: Seq<(Seq<char>, Option<Seq<char>>)>) -> Seq<Seq<char>>
    decreases f.len(),
{
    if f.len() == 0 {
        Seq::empty()
    } else {
        let rest = members_of(f.drop_first());
        match f[0].1 {
            Some(v) => seq![json_member(f[0].0, v)] + rest,
            None => rest,
        }
    }
}

/// One where `b` holds, and otherwise none.
pub open spec fn one_if(b: bool) -> nat {
    if b {
        1
    } else {
        0
    }
}

/// Whether the names of two objects are the same, each once and without quotes.
pub open spec fn same_names(
    f: Seq<(Seq<char>, Option<Seq<char>>)>,
    g: Seq<(Seq<char>, Option<Seq<char>>)>,
) -> bool {
    &&& f.len() == g.len()
    &&& forall|a: int| 0 <= a < f.len() ==> (#[trigger] f[a]).0 == g[a].0 && !f[a].0.contains('"')
    &&& forall|a: int, b: int| 0 <= a < b < f.len() ==> (#[trigger] f[a]).0 != (#[trigger] f[b]).0
}

/// Whether the values of two objects show where they end.
pub open spec fn same_ends(
    f: Seq<(Seq<char>, Option<Seq<char>>)>,
    g: Seq<(Seq<char>, Option<Seq<char>>)>,
) -> bool {
    forall|a: int|
        0 <= a < f.len() && (#[trigger] f[a]).1 is Some && g[a].1 is Some ==> splits(
            f[a].1->0,
            g[a].1->0,
        )
}

proof fn lemma_member_name(
    n: Seq<char>,
    v: Seq<char>,
    m: Seq<char>,
    w: Seq<char>,
    x: Seq<char>,
    y: Seq<char>,
)
    requires
        !n.contains('"'),
        !m.contains('"'),
        json_member(n, v) + x == json_member(m, w) + y,
    ensures
        n == m,
{
    let s = json_member(n, v) + x;
    let t = json_member(m, w) + y;
    let nl = n.len() as int;
    let ml = m.len() as int;
    if nl < ml {
        assert(s[1 + nl] == '"');
        assert(t[1 + nl] == m[nl]);
        assert(m.contains(m[nl]));
    } else if ml < nl {
        assert(t[1 + ml] == '"');
        assert(s[1 + ml] == n[ml]);
        assert(n.contains(n[ml]));
    } else {
        assert(s.subrange(1, 1 + nl) == n);
        assert(t.subrange(1, 1 + nl) == m);
    }
}

/// Which member stands at a place.
proof fn lemma_member_at(f: Seq<(Seq<char>, Option<Seq<char>>)>, i: int) -> (a: int)
    requires
        0 <= i < members_of(f).len(),
    ensures
        0 <= a < f.len(),
        f[a].1 is Some,
        members_of(f)[i] == json_member(f[a].0, f[a].1->0),
    decreases f.len(),
{
    if f[0].1 is Some && i == 0 {
        0
    } else {
        let j: int = if f[0].1 is Some {
            i - 1
        } else {
            i
        };
        let b = lemma_member_at(f.drop_first(), j);
        b + 1
    }
}

/// Each member that has a value is there.
proof fn lemma_member_is_there(f: Seq<(Seq<char>, Option<Seq<char>>)>, a: int)
    requires
        0 <= a < f.len(),
        f[a].1 is Some,
    ensures
        members_of(f).contains(json_member(f[a].0, f[a].1->0)),
    decreases f.len(),
{
    let m = json_member(f[a].0, f[a].1->0);
    if a == 0 {
        assert(members_of(f)[0] == m);
    } else {
        let rest = f.drop_first();
        lemma_member_is_there(rest, a - 1);
        let k = choose|k: int| 0 <= k < members_of(rest).len() && members_of(rest)[k] == m;
        if f[0].1 is Some {
            assert(members_of(f)[k + 1] == m);
        } else {
            assert(members_of(f)[k] == m);
        }
    }
}

proof fn lemma_same_members(
    f: Seq<(Seq<char>, Option<Seq<char>>)>,
    g: Seq<(Seq<char>, Option<Seq<char>>)>,
)
    requires
        same_names(f, g),
        members_of(f) == members_of(g),
    ensures
        f == g,
    decreases f.len(),
{
    if f.len() > 0 {
        let fr = f.drop_first();
        let gr = g.drop_first();
        let p = members_of(f);
        let q = members_of(g);
        assert(f[0].0 == g[0].0);
        assert(same_names(fr, gr)) by {
            assert forall|a: int| 0 <= a < fr.len() implies (#[trigger] fr[a]).0 == gr[a].0
                && !fr[a].0.contains('"') by {
                assert(f[a + 1].0 == g[a + 1].0);
            }
            assert forall|a: int, b: int| 0 <= a < b < fr.len() implies (#[trigger] fr[a]).0 != (
            #[trigger] fr[b]).0 by {
                assert(f[a + 1].0 != f[b + 1].0);
            }
        }
        let none = Seq::<char>::empty();
        if f[0].1 is Some && g[0].1 is Some {
            let head = seq!['"'] + f[0].0 + seq!['"', ':'];
            assert(p[0] == json_member(f[0].0, f[0].1->0));
            assert(q[0] == json_member(g[0].0, g[0].1->0));
            assert(p[0] == head + f[0].1->0);
            assert(q[0] == head + g[0].1->0);
            lemma_cancel(head, f[0].1->0, head, g[0].1->0);
            assert(p.drop_first() == members_of(fr));
            assert(q.drop_first() == members_of(gr));
        } else if f[0].1 is Some {
            assert(p[0] == json_member(f[0].0, f[0].1->0));
            let b = lemma_member_at(g, 0);
            assert(json_member(f[0].0, f[0].1->0) + none == json_member(g[b].0, g[b].1->0) + none);
            assert(f[b].0 == g[b].0);
            lemma_member_name(f[0].0, f[0].1->0, g[b].0, g[b].1->0, none, none);
        } else if g[0].1 is Some {
            assert(q[0] == json_member(g[0].0, g[0].1->0));
            let b = lemma_member_at(f, 0);
            assert(json_member(g[0].0, g[0].1->0) + none == json_member(f[b].0, f[b].1->0) + none);
            lemma_member_name(g[0].0, g[0].1->0, f[b].0, f[b].1->0, none, none);
        }
        lemma_same_members(fr, gr);
        assert(f == seq![f[0]] + fr);
        assert(g == seq![g[0]] + gr);
    } else {
        assert(f == g);
    }
}

/// An object shows where it ends, and which members it has.
proof fn lemma_members_code(
    f: Seq<(Seq<char>, Option<Seq<char>>)>,
    g: Seq<(Seq<char>, Option<Seq<char>>)>,
)
    requires
        same_names(f, g),
        same_ends(f, g),
    ensures
        splits(json_object(members_of(f)), json_object(members_of(g))),
        json_object(members_of(f)) == json_object(members_of(g)) ==> f == g,
{
    let p = members_of(f);
    let q = members_of(g);
    let open = seq!['{'];
    let comma = seq![','];
    assert forall|i: int| 0 <= i < p.len() implies #[trigger] p[i].len() > 0 && !is_terminator(
        p[i][0],
    ) by {
        let a = lemma_member_at(f, i);
    }
    assert forall|i: int| 0 <= i < q.len() implies #[trigger] q[i].len() > 0 && !is_terminator(
        q[i][0],
    ) by {
        let a = lemma_member_at(g, i);
    }
    assert forall|i: int| 0 <= i < p.len() && i < q.len() implies #[trigger] splits(p[i], q[i]) by {
        let a = lemma_member_at(f, i);
        let b = lemma_member_at(g, i);
        assert(f[a].0 == g[a].0 && f[b].0 == g[b].0);
        if a == b {
            assert(splits(f[a].1->0, g[a].1->0));
            lemma_member_code(f[a].0, f[a].1->0, g[a].1->0);
        } else {
            assert(f[a].0 != f[b].0) by {
                if a < b {
                    assert(f[a].0 != f[b].0);
                } else {
                    assert(f[b].0 != f[a].0);
                }
            }
            assert forall|x: Seq<char>, y: Seq<char>|
                terminated(x) && terminated(y) && #[trigger] (p[i] + x) == #[trigger] (q[i]
                    + y) implies p[i] == q[i] by {
                lemma_member_name(f[a].0, f[a].1->0, g[b].0, g[b].1->0, x, y);
            }
        }
    }
    assert forall|x: Seq<char>, y: Seq<char>|
        #[trigger] (json_object(p) + x) == #[trigger] (json_object(q) + y) implies f == g by {
        let u = join_closed(p, x);
        let v = join_closed(q, y);
        assert(json_object(p) + x == open + u);
        assert(json_object(q) + y == open + v);
        lemma_cancel(open, u, open, v);
        lemma_join_code(p, q, '}', x, y);
        lemma_same_members(f, g);
    }
    let none = Seq::<char>::empty();
    if json_object(p) == json_object(q) {
        assert(json_object(p) + none == json_object(q) + none);
    }
}

spec fn join_closed(p: Seq<Seq<char>>, x: Seq<char>) -> Seq<char> {
    crate::text::join(p, seq![',']) + (seq!['}'] + x)
}

proof fn lemma_strings_end(s: Option<Seq<char>>, t: Option<Seq<char>>)
    ensures
        string_value(s) is Some && string_value(t) is Some ==> splits(
            string_value(s)->0,
            string_value(t)->0,
        ),
        string_value(s) == string_value(t) ==> s == t,
{
    lemma_opt_string_code(s, t);
    if s is Some && t is Some {
        assert(json_opt_string(s) == string_value(s)->0);
        assert(json_opt_string(t) == string_value(t)->0);
    }
}

proof fn lemma_integers_end(m: Option<i64>, n: Option<i64>)
    ensures
        integer_value(m) is Some && integer_value(n) is Some ==> splits(
            integer_value(m)->0,
            integer_value(n)->0,
        ),
        integer_value(m) == integer_value(n) ==> m == n,
{
    if m is Some && n is Some {
        let a = Some(m->0 as int);
        let b = Some(n->0 as int);
        lemma_opt_integer_code(a, b);
        assert(json_opt_integer(a) == integer_value(m)->0);
        assert(json_opt_integer(b) == integer_value(n)->0);
    }
}

proof fn lemma_lists_end(s: Seq<Seq<char>>, t: Seq<Seq<char>>)
    ensures
        list_value(s) is Some && list_value(t) is Some ==> splits(
            list_value(s)->0,
            list_value(t)->0,
        ),
        list_value(s) == list_value(t) ==> s == t,
{
    lemma_string_array_code(s, t);
    if s.len() == 0 && t.len() == 0 {
        assert(s == t);
    }
}

spec fn source_fields(p: SourceView) -> Seq<(Seq<char>, Option<Seq<char>>)> {
    seq![
        ("include_domains"@, list_value(p.include_domains)),
        ("exclude_domains"@, list_value(p.exclude_domains)),
        ("after_date"@, string_value(p.after_date)),
    ]
}

proof fn lemma_source_fields(p: SourceView)
    ensures
        p.json() == json_object(members_of(source_fields(p))),
        members_of(source_fields(p)).len() == one_if(p.include_domains.len() > 0) + one_if(
            p.exclude_domains.len() > 0,
        ) + one_if(p.after_date is Some),
        same_names(source_fields(p), source_fields(p)),
{
    let f = source_fields(p);
    reveal_with_fuel(members_of, 4);
    reveal_strlit("include_domains");
    reveal_strlit("exclude_domains");
    reveal_strlit("after_date");
    assert("include_domains"@[0] == 'i' && "exclude_domains"@[0] == 'e' && "after_date"@[0] == 'a');
    assert(!"include_domains"@.contains('"'));
    assert(!"exclude_domains"@.contains('"'));
    assert(!"after_date"@.contains('"'));
    assert(f.drop_first().drop_first().drop_first().len() == 0);
    assert(f.drop_first()[0] == f[1]);
    assert(f.drop_first().drop_first()[0] == f[2]);
    assert(members_of(f) == opt_member(f[0].0, f[0].1) + opt_member(f[1].0, f[1].1) + opt_member(
        f[2].0,
        f[2].1,
    ));
}

proof fn lemma_source_code(p: SourceView, q: SourceView)
    ensures
        splits(p.json(), q.json()),
        p.json() == q.json() ==> p == q,
{
    let f = source_fields(p);
    let g = source_fields(q);
    lemma_source_fields(p);
    lemma_source_fields(q);
    lemma_lists_end(p.include_domains, q.include_domains);
    lemma_lists_end(p.exclude_domains, q.exclude_domains);
    lemma_strings_end(p.after_date, q.after_date);
    assert(same_names(f, g));
    lemma_members_code(f, g);
    if p.json() == q.json() {
        assert(f[0] == g[0] && f[1] == g[1] && f[2] == g[2]);
    }
}

spec fn timeout_text(f: FetchView) -> Option<Seq<char>> {
    match f.timeout_seconds {
        Some(t) => Some(t.json),
        None => None,
    }
}

/// Whether the text of the time limit can be that of a number: nothing in it ends a value.
pub open spec fn has_number_text(f: FetchView) -> bool {
    f.timeout_seconds matches Some(t) ==> unbroken(t.json)
}

spec fn fetch_fields(f: FetchView) -> Seq<(Seq<char>, Option<Seq<char>>)> {
    seq![
        ("max_age_seconds"@, integer_value(f.max_age_seconds)),
        ("timeout_seconds"@, timeout_text(f)),
        (
            "disable_cache_fallback"@,
            if f.disable_cache_fallback {
                Some(json_bool(true))
            } else {
                None
            },
        ),
    ]
}

proof fn lemma_fetch_fields(p: FetchView)
    ensures
        p.json() == json_object(members_of(fetch_fields(p))),
        members_of(fetch_fields(p)).len() == one_if(p.max_age_seconds is Some) + one_if(
            p.timeout_seconds is Some,
        ) + one_if(p.disable_cache_fallback),
        same_names(fetch_fields(p), fetch_fields(p)),
{
    let f = fetch_fields(p);
    reveal_with_fuel(members_of, 4);
    reveal_strlit("max_age_seconds");
    reveal_strlit("timeout_seconds");
    reveal_strlit("disable_cache_fallback");
    assert("max_age_seconds"@[0] == 'm' && "timeout_seconds"@[0] == 't'
        && "disable_cache_fallback"@[0] == 'd');
    assert(!"max_age_seconds"@.contains('"'));
    assert(!"timeout_seconds"@.contains('"'));
    assert(!"disable_cache_fallback"@.contains('"'));
    assert(f.drop_first().drop_first().drop_first().len() == 0);
    assert(f.drop_first()[0] == f[1]);
    assert(f.drop_first().drop_first()[0] == f[2]);
    assert(members_of(f) == opt_member(f[0].0, f[0].1) + opt_member(f[1].0, f[1].1) + opt_member(
        f[2].0,
        f[2].1,
    ));
}

proof fn lemma_fetch_code(p: FetchView, q: FetchView)
    requires
        has_number_text(p),
        has_number_text(q),
    ensures
        splits(p.json(), q.json()),
        p.json() == q.json() ==> p.max_age_seconds == q.max_age_seconds && timeout_text(p)
            == timeout_text(q) && p.disable_cache_fallback == q.disable_cache_fallback,
{
    let f = fetch_fields(p);
    let g = fetch_fields(q);
    lemma_fetch_fields(p);
    lemma_fetch_fields(q);
    lemma_integers_end(p.max_age_seconds, q.max_age_seconds);
    if p.timeout_seconds is Some && q.timeout_seconds is Some {
        lemma_unbroken_splits(timeout_text(p)->0, timeout_text(q)->0);
    }
    lemma_unbroken_splits(json_bool(true), json_bool(true));
    assert(same_names(f, g));
    lemma_members_code(f, g);
    if p.json() == q.json() {
        assert(f[0] == g[0] && f[1] == g[1] && f[2] == g[2]);
    }
}

spec fn excerpt_fields(e: ExcerptSettings) -> Seq<(Seq<char>, Option<Seq<char>>)> {
    seq![("max_chars_per_result"@, integer_value(e.max_chars_per_result))]
}

proof fn lemma_excerpt_fields(e: ExcerptSettings)
    ensures
        excerpt_json(e) == json_object(members_of(excerpt_fields(e))),
        members_of(excerpt_fields(e)).len() == one_if(e.max_chars_per_result is Some),
        same_names(excerpt_fields(e), excerpt_fields(e)),
{
    let f = excerpt_fields(e);
    reveal_with_fuel(members_of, 2);
    reveal_strlit("max_chars_per_result");
    assert(!"max_chars_per_result"@.contains('"'));
    assert(f.drop_first().len() == 0);
    assert(members_of(f) == opt_member(f[0].0, f[0].1));
}

proof fn lemma_excerpt_code(d: ExcerptSettings, e: ExcerptSettings)
    ensures
        splits(excerpt_json(d), excerpt_json(e)),
        excerpt_json(d) == excerpt_json(e) ==> d == e,
{
    let f = excerpt_fields(d);
    let g = excerpt_fields(e);
    lemma_excerpt_fields(d);
    lemma_excerpt_fields(e);
    lemma_integers_end(d.max_chars_per_result, e.max_chars_per_result);
    assert(same_names(f, g));
    lemma_members_code(f, g);
    if excerpt_json(d) == excerpt_json(e) {
        assert(f[0] == g[0]);
    }
}

spec fn settings_fields(a: SettingsView) -> Seq<(Seq<char>, Option<Seq<char>>)> {
    seq![
        (
            "source_policy"@,
            match a.source_policy {
                Some(p) => Some(p.json()),
                None => None,
            },
        ),
        (
            "fetch_policy"@,
            match a.fetch_policy {
                Some(p) => Some(p.json()),
                None => None,
            },
        ),
        (
            "excerpt_settings"@,
            match a.excerpt_settings {
                Some(e) => Some(excerpt_json(e)),
                None => None,
            },
        ),
        ("location"@, string_value(a.location)),
        ("max_results"@, integer_value(a.max_results)),
    ]
}

proof fn lemma_settings_fields(a: SettingsView)
    ensures
        a.json() == json_object(members_of(settings_fields(a))),
        members_of(settings_fields(a)).len() == one_if(a.source_policy is Some) + one_if(
            a.fetch_policy is Some,
        ) + one_if(a.excerpt_settings is Some) + one_if(a.location is Some) + one_if(
            a.max_results is Some,
        ),
        same_names(settings_fields(a), settings_fields(a)),
{
    let f = settings_fields(a);
    reveal_with_fuel(members_of, 6);
    reveal_strlit("source_policy");
    reveal_strlit("fetch_policy");
    reveal_strlit("excerpt_settings");
    reveal_strlit("location");
    reveal_strlit("max_results");
    assert("source_policy"@.len() == 13 && "fetch_policy"@.len() == 12 && "excerpt_settings"@.len()
        == 16 && "location"@.len() == 8 && "max_results"@.len() == 11);
    assert(!"source_policy"@.contains('"'));
    assert(!"fetch_policy"@.contains('"'));
    assert(!"excerpt_settings"@.contains('"'));
    assert(!"location"@.contains('"'));
    assert(!"max_results"@.contains('"'));
    let f1 = f.drop_first();
    let f2 = f1.drop_first();
    let f3 = f2.drop_first();
    let f4 = f3.drop_first();
    assert(f4.drop_first().len() == 0);
    assert(f1[0] == f[1] && f2[0] == f[2] && f3[0] == f[3] && f4[0] == f[4]);
    assert(members_of(f) == opt_member(f[0].0, f[0].1) + opt_member(f[1].0, f[1].1) + opt_member(
        f[2].0,
        f[2].1,
    ) + opt_member(f[3].0, f[3].1) + opt_member(f[4].0, f[4].1));
}

/// Whether the settings hold the same, time limits by their text.
spec fn same_settings(a: SettingsView, b: SettingsView) -> bool {
    &&& a.source_policy == b.source_policy
    &&& a.fetch_policy is Some <==> b.fetch_policy is Some
    &&& a.fetch_policy is Some && b.fetch_policy is Some ==> {
        &&& a.fetch_policy->0.max_age_seconds == b.fetch_policy->0.max_age_seconds
        &&& timeout_text(a.fetch_policy->0) == timeout_text(b.fetch_policy->0)
        &&& a.fetch_policy->0.disable_cache_fallback == b.fetch_policy->0.disable_cache_fallback
    }
    &&& a.excerpt_settings == b.excerpt_settings
    &&& a.location == b.location
    &&& a.max_results == b.max_results
}

proof fn lemma_settings_code(a: SettingsView, b: SettingsView)
    requires
        a.fetch_policy matches Some(f) ==> has_number_text(f),
        b.fetch_policy matches Some(f) ==> has_number_text(f),
    ensures
        splits(a.json(), b.json()),
        a.json() == b.json() ==> same_settings(a, b),
{
    let f = settings_fields(a);
    let g = settings_fields(b);
    lemma_settings_fields(a);
    lemma_settings_fields(b);
    if a.source_policy is Some && b.source_policy is Some {
        lemma_source_code(a.source_policy->0, b.source_policy->0);
    }
    if a.fetch_policy is Some && b.fetch_policy is Some {
        lemma_fetch_code(a.fetch_policy->0, b.fetch_policy->0);
    }
    if a.excerpt_settings is Some && b.excerpt_settings is Some {
        lemma_excerpt_code(a.excerpt_settings->0, b.excerpt_settings->0);
    }
    lemma_strings_end(a.location, b.location);
    lemma_integers_end(a.max_results, b.max_results);
    assert(same_names(f, g));
    lemma_members_code(f, g);
    if a.json() == b.json() {
        assert(f[0] == g[0] && f[1] == g[1] && f[2] == g[2] && f[3] == g[3] && f[4] == g[4]);
    }
}

spec fn request_fields(r: RequestView) -> Seq<(Seq<char>, Option<Seq<char>>)> {
    seq![
        ("objective"@, string_value(r.objective)),
        ("search_queries"@, Some(json_array(json_strings(r.search_queries)))),
        (
            "mode"@,
            match r.mode {
                Some(m) => Some(json_string(mode_name(m))),
                None => None,
            },
        ),
        ("max_chars_total"@, integer_value(r.max_chars_total)),
        ("client_model"@, string_value(r.client_model)),
        (
            "advanced_settings"@,
            match r.advanced_settings {
                Some(a) => Some(a.json()),
                None => None,
            },
        ),
    ]
}

proof fn lemma_request_fields(r: RequestView)
    ensures
        r.payload() == json_object(members_of(request_fields(r))),
        members_of(request_fields(r)).len() == 1 + one_if(r.objective is Some) + one_if(
            r.mode is Some,
        ) + one_if(r.max_chars_total is Some) + one_if(r.client_model is Some) + one_if(
            r.advanced_settings is Some,
        ),
        same_names(request_fields(r), request_fields(r)),
{
    let f = request_fields(r);
    reveal_with_fuel(members_of, 7);
    reveal_strlit("objective");
    reveal_strlit("search_queries");
    reveal_strlit("mode");
    reveal_strlit("max_chars_total");
    reveal_strlit("client_model");
    reveal_strlit("advanced_settings");
    assert("objective"@.len() == 9 && "search_queries"@.len() == 14 && "mode"@.len() == 4
        && "max_chars_total"@.len() == 15 && "client_model"@.len() == 12
        && "advanced_settings"@.len() == 17);
    assert(!"objective"@.contains('"'));
    assert(!"search_queries"@.contains('"'));
    assert(!"mode"@.contains('"'));
    assert(!"max_chars_total"@.contains('"'));
    assert(!"client_model"@.contains('"'));
    assert(!"advanced_settings"@.contains('"'));
    let f1 = f.drop_first();
    let f2 = f1.drop_first();
    let f3 = f2.drop_first();
    let f4 = f3.drop_first();
    let f5 = f4.drop_first();
    assert(f5.drop_first().len() == 0);
    assert(f1[0] == f[1] && f2[0] == f[2] && f3[0] == f[3] && f4[0] == f[4] && f5[0] == f[5]);
    assert(members_of(f) == opt_member(f[0].0, f[0].1) + seq![json_member(f[1].0, f[1].1->0)]
        + opt_member(f[2].0, f[2].1) + opt_member(f[3].0, f[3].1) + opt_member(f[4].0, f[4].1)
        + opt_member(f[5].0, f[5].1));
}

/// Requests with one body ask the same in every part but the session, a time limit by its text: all
/// of the queries, and each of the settings, can be read off the body. The text of a time limit has
/// to be one that a number can have.
pub proof fn law_payload_tells_requests_apart(r: RequestView, s: RequestView)
    requires
        has_number_text(given_fetch(r)),
        has_number_text(given_fetch(s)),
        r.payload() == s.payload(),
    ensures
        r.objective == s.objective,
        r.search_queries == s.search_queries,
        r.mode == s.mode,
        r.max_chars_total == s.max_chars_total,
        r.client_model == s.client_model,
        r.advanced_settings is Some <==> s.advanced_settings is Some,
        given(r).source_policy == given(s).source_policy,
        given(r).fetch_policy is Some <==> given(s).fetch_policy is Some,
        given_fetch(r).max_age_seconds == given_fetch(s).max_age_seconds,
        given_fetch(r).disable_cache_fallback == given_fetch(s).disable_cache_fallback,
        given_fetch(r).timeout_seconds is Some <==> given_fetch(s).timeout_seconds is Some,
        given_fetch(r).timeout_seconds is Some && given_fetch(s).timeout_seconds is Some
            ==> given_fetch(r).timeout_seconds->0.json == given_fetch(s).timeout_seconds->0.json,
        given(r).excerpt_settings == given(s).excerpt_settings,
        given(r).location == given(s).location,
        given(r).max_results == given(s).max_results,
{
    let f = request_fields(r);
    let g = request_fields(s);
    lemma_request_fields(r);
    lemma_request_fields(s);
    lemma_strings_end(r.objective, s.objective);
    lemma_string_array_code(r.search_queries, s.search_queries);
    if r.mode is Some && s.mode is Some {
        lemma_strings_end(Some(mode_name(r.mode->0)), Some(mode_name(s.mode->0)));
        law_mode_name_reads_back(r.mode->0);
        law_mode_name_reads_back(s.mode->0);
    }
    lemma_integers_end(r.max_chars_total, s.max_chars_total);
    lemma_strings_end(r.client_model, s.client_model);
    if r.advanced_settings is Some && s.advanced_settings is Some {
        lemma_settings_code(r.advanced_settings->0, s.advanced_settings->0);
    }
    assert(same_names(f, g));
    lemma_members_code(f, g);
    assert(f[0] == g[0] && f[1] == g[1] && f[2] == g[2] && f[3] == g[3] && f[4] == g[4] && f[5]
        == g[5]);
}

/// The body is an object with the queries, all of them and in order, and with each other part of
/// the request that is there; it has no other member.
pub proof fn law_payload_holds_each_part(r: RequestView)
    ensures
        exists|ms: Seq<Seq<char>>|
            {
                &&& r.payload() == #[trigger] json_object(ms)
                &&& ms.len() == 1 + one_if(r.objective is Some) + one_if(r.mode is Some) + one_if(
                    r.max_chars_total is Some,
                ) + one_if(r.client_model is Some) + one_if(r.advanced_settings is Some)
                &&& ms.contains(
                    json_member("search_queries"@, json_array(json_strings(r.search_queries))),
                )
                &&& r.objective matches Some(o) ==> ms.contains(
                    json_member("objective"@, json_string(o)),
                )
                &&& r.mode matches Some(m) ==> ms.contains(
                    json_member("mode"@, json_string(mode_name(m))),
                )
                &&& r.max_chars_total matches Some(n) ==> ms.contains(
                    json_member("max_chars_total"@, integer_text(n as int)),
                )
                &&& r.client_model matches Some(c) ==> ms.contains(
                    json_member("client_model"@, json_string(c)),
                )
                &&& r.advanced_settings matches Some(a) ==> ms.contains(
                    json_member("advanced_settings"@, a.json()),
                )
            },
{
    let f = request_fields(r);
    lemma_request_fields(r);
    lemma_all_there(f);
    let ms = members_of(f);
    assert(f[0].1 is Some ==> ms.contains(json_member(f[0].0, f[0].1->0)));
    assert(ms.contains(json_member(f[1].0, f[1].1->0)));
    assert(f[2].1 is Some ==> ms.contains(json_member(f[2].0, f[2].1->0)));
    assert(f[3].1 is Some ==> ms.contains(json_member(f[3].0, f[3].1->0)));
    assert(f[4].1 is Some ==> ms.contains(json_member(f[4].0, f[4].1->0)));
    assert(f[5].1 is Some ==> ms.contains(json_member(f[5].0, f[5].1->0)));
    assert(r.payload() == json_object(ms));
}

proof fn lemma_all_there(f: Seq<(Seq<char>, Option<Seq<char>>)>)
    ensures
        forall|a: int|
            0 <= a < f.len() && (#[trigger] f[a]).1 is Some ==> members_of(f).contains(
                json_member(f[a].0, f[a].1->0),
            ),
{
    assert forall|a: int| 0 <= a < f.len() && (#[trigger] f[a]).1 is Some implies members_of(
        f,
    ).contains(json_member(f[a].0, f[a].1->0)) by {
        lemma_member_is_there(f, a);
    }
}

/// The object of the rarer settings has each setting that is there, and no other member.
pub proof fn law_settings_json_holds_each_part(a: SettingsView)
    ensures
        exists|ms: Seq<Seq<char>>|
            {
                &&& a.json() == #[trigger] json_object(ms)
                &&& ms.len() == one_if(a.source_policy is Some) + one_if(a.fetch_policy is Some)
                    + one_if(a.excerpt_settings is Some) + one_if(a.location is Some) + one_if(
                    a.max_results is Some,
                )
                &&& a.source_policy matches Some(p) ==> ms.contains(
                    json_member("source_policy"@, p.json()),
                )
                &&& a.fetch_policy matches Some(p) ==> ms.contains(
                    json_member("fetch_policy"@, p.json()),
                )
                &&& a.excerpt_settings matches Some(e) ==> ms.contains(
                    json_member("excerpt_settings"@, excerpt_json(e)),
                )
                &&& a.location matches Some(l) ==> ms.contains(
                    json_member("location"@, json_string(l)),
                )
                &&& a.max_results matches Some(n) ==> ms.contains(
                    json_member("max_results"@, integer_text(n as int)),
                )
            },
{
    let f = settings_fields(a);
    lemma_settings_fields(a);
    lemma_all_there(f);
    let ms = members_of(f);
    assert(f[0].1 is Some ==> ms.contains(json_member(f[0].0, f[0].1->0)));
    assert(f[1].1 is Some ==> ms.contains(json_member(f[1].0, f[1].1->0)));
    assert(f[2].1 is Some ==> ms.contains(json_member(f[2].0, f[2].1->0)));
    assert(f[3].1 is Some ==> ms.contains(json_member(f[3].0, f[3].1->0)));
    assert(f[4].1 is Some ==> ms.contains(json_member(f[4].0, f[4].1->0)));
    assert(a.json() == json_object(ms));
}

/// The object of a source policy has each list that is not empty and the date that is there, and no
/// other member.
pub proof fn law_source_json_holds_each_part(p: SourceView)
    ensures
        exists|ms: Seq<Seq<char>>|
            {
                &&& p.json() == #[trigger] json_object(ms)
                &&& ms.len() == one_if(p.include_domains.len() > 0) + one_if(
                    p.exclude_domains.len() > 0,
                ) + one_if(p.after_date is Some)
                &&& p.include_domains.len() > 0 ==> ms.contains(
                    json_member("include_domains"@, json_array(json_strings(p.include_domains))),
                )
                &&& p.exclude_domains.len() > 0 ==> ms.contains(
                    json_member("exclude_domains"@, json_array(json_strings(p.exclude_domains))),
                )
                &&& p.after_date matches Some(d) ==> ms.contains(
                    json_member("after_date"@, json_string(d)),
                )
            },
{
    let f = source_fields(p);
    lemma_source_fields(p);
    lemma_all_there(f);
    let ms = members_of(f);
    assert(f[0].1 is Some ==> ms.contains(json_member(f[0].0, f[0].1->0)));
    assert(f[1].1 is Some ==> ms.contains(json_member(f[1].0, f[1].1->0)));
    assert(f[2].1 is Some ==> ms.contains(json_member(f[2].0, f[2].1->0)));
    assert(p.json() == json_object(ms));
}

/// The objects of a fetch policy and of excerpt settings have each setting that is there, and no
/// other member.
pub proof fn law_fetch_and_excerpt_json_hold_each_part(p: FetchView, e: ExcerptSettings)
    ensures
        exists|ms: Seq<Seq<char>>|
            {
                &&& p.json() == #[trigger] json_object(ms)
                &&& ms.len() == one_if(p.max_age_seconds is Some) + one_if(
                    p.timeout_seconds is Some,
                ) + one_if(p.disable_cache_fallback)
                &&& p.max_age_seconds matches Some(n) ==> ms.contains(
                    json_member("max_age_seconds"@, integer_text(n as int)),
                )
                &&& p.timeout_seconds matches Some(t) ==> ms.contains(
                    json_member("timeout_seconds"@, t.json),
                )
                &&& p.disable_cache_fallback ==> ms.contains(
                    json_member("disable_cache_fallback"@, "true"@),
                )
            },
        e.max_chars_per_result matches Some(n) ==> excerpt_json(e) == json_object(
            seq![json_member("max_chars_per_result"@, integer_text(n as int))],
        ),
        e.max_chars_per_result is None ==> excerpt_json(e) == json_object(Seq::empty()),
{
    let f = fetch_fields(p);
    lemma_fetch_fields(p);
    lemma_all_there(f);
    let ms = members_of(f);
    reveal_strlit("true");
    assert("true"@ == json_bool(true));
    assert(f[0].1 is Some ==> ms.contains(json_member(f[0].0, f[0].1->0)));
    assert(f[1].1 is Some ==> ms.contains(json_member(f[1].0, f[1].1->0)));
    assert(f[2].1 is Some ==> ms.contains(json_member(f[2].0, f[2].1->0)));
    assert(p.json() == json_object(ms));
}

} // verus!
