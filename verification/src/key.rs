//! The key under which the answer to a search is kept. Requests that differ only in what does not
//! change the answer share a key.

use vstd::prelude::*;
use vstd::utf8::encode_utf8;

use crate::hash::{blake3_hex, hash_hex, is_hex_digit};
use crate::json::{
    bool_text, json_array, json_bool, json_member, json_object, json_opt_integer, json_opt_string,
    json_strings, member_text, object_text, opt_i64, opt_i64_text, opt_string_text, opt_u64,
    opt_u64_text, string_array_text,
};
use crate::model::{
    mode_name, nonblank, normal_domains, normalize_domains, unless_blank, RequestView, SearchMode,
    SearchRequest,
};
use crate::order::{drop_repeats, sort_rows, sorted, sorted_once};
use crate::text::{
    chars_of, collapse_ws, collapsed, fold, folded, join, join_texts, lower, lowered, opt_text, rows,
    split_words, string_of, strings_of, texts, words,
};

verus! {

/// Each text of `s` with ASCII capitals made small.
pub open spec fn lower_all(s: Seq<Seq<char>>) -> Seq<Seq<char>> {
    s.map_values(|t: Seq<char>| lower(t))
}

/// A query as a bag of keywords: its words with ASCII capitals made small, in order, with one space
/// between neighbours.
pub open spec fn keyword_bag(q: Seq<char>) -> Seq<char> {
    join(sorted(lower_all(words(q))), seq![' '])
}

/// Each query of `s` as a bag of keywords.
pub open spec fn keyword_bags(s: Seq<Seq<char>>) -> Seq<Seq<char>> {
    s.map_values(|t: Seq<char>| keyword_bag(t))
}

/// Free text with its white space collapsed and ASCII capitals made small, unless nothing is left.
pub open spec fn phrase(o: Option<Seq<char>>) -> Option<Seq<char>> {
    match o {
        Some(t) => unless_blank(lower(collapsed(t))),
        None => None,
    }
}

/// The parts of a request that decide the answer, in one form. The session is not among them: it
/// does not change the answer, and with it every caller would have entries of their own.
#[verifier::ext_equal]
pub struct KeyView {
    pub objective: Option<Seq<char>>,
    pub search_queries: Seq<Seq<char>>,
    pub mode: Option<SearchMode>,
    pub max_chars_total: Option<i64>,
    pub client_model: Option<Seq<char>>,
    pub location: Option<Seq<char>>,
    pub max_results: Option<i64>,
    pub max_chars_per_result: Option<i64>,
    pub include_domains: Seq<Seq<char>>,
    pub exclude_domains: Seq<Seq<char>>,
    pub after_date: Option<Seq<char>>,
    pub max_age_seconds: Option<i64>,
    pub timeout_seconds: Option<u64>,
    pub disable_cache_fallback: bool,
}

impl RequestView {
    /// The parts of the request that decide the answer, in one form.
    pub open spec fn canonical(self) -> KeyView {
        let source = match self.advanced_settings {
            Some(a) => a.source_policy,
            None => None,
        };
        let fetch = match self.advanced_settings {
            Some(a) => a.fetch_policy,
            None => None,
        };
        KeyView {
            objective: phrase(self.objective),
            search_queries: sorted_once(nonblank(keyword_bags(self.search_queries))),
            mode: self.mode,
            max_chars_total: self.max_chars_total,
            client_model: phrase(self.client_model),
            location: match self.advanced_settings {
                Some(a) => match a.location {
                    Some(l) => unless_blank(folded(l)),
                    None => None,
                },
                None => None,
            },
            max_results: match self.advanced_settings {
                Some(a) => a.max_results,
                None => None,
            },
            max_chars_per_result: match self.advanced_settings {
                Some(a) => match a.excerpt_settings {
                    Some(e) => e.max_chars_per_result,
                    None => None,
                },
                None => None,
            },
            include_domains: match source {
                Some(p) => normal_domains(p.include_domains),
                None => Seq::empty(),
            },
            exclude_domains: match source {
                Some(p) => normal_domains(p.exclude_domains),
                None => Seq::empty(),
            },
            after_date: match source {
                Some(p) => p.after_date,
                None => None,
            },
            max_age_seconds: match fetch {
                Some(f) => f.max_age_seconds,
                None => None,
            },
            timeout_seconds: match fetch {
                Some(f) => match f.timeout_seconds {
                    Some(t) => Some(t.bits),
                    None => None,
                },
                None => None,
            },
            disable_cache_fallback: match fetch {
                Some(f) => f.disable_cache_fallback,
                None => false,
            },
        }
    }
}

/// The name of the mode, where there is one.
pub open spec fn opt_mode_name(mode: Option<SearchMode>) -> Option<Seq<char>> {
    match mode {
        Some(m) => Some(mode_name(m)),
        None => None,
    }
}

/// The members of the JSON object of a key.
pub open spec fn key_members(k: KeyView) -> Seq<Seq<char>> {
    seq![
        json_member("objective"@, json_opt_string(k.objective)),
        json_member("search_queries"@, json_array(json_strings(k.search_queries))),
        json_member("mode"@, json_opt_string(opt_mode_name(k.mode))),
        json_member("max_chars_total"@, json_opt_integer(opt_i64(k.max_chars_total))),
        json_member("client_model"@, json_opt_string(k.client_model)),
        json_member("location"@, json_opt_string(k.location)),
        json_member("max_results"@, json_opt_integer(opt_i64(k.max_results))),
        json_member("max_chars_per_result"@, json_opt_integer(opt_i64(k.max_chars_per_result))),
        json_member("include_domains"@, json_array(json_strings(k.include_domains))),
        json_member("exclude_domains"@, json_array(json_strings(k.exclude_domains))),
        json_member("after_date"@, json_opt_string(k.after_date)),
        json_member("max_age_seconds"@, json_opt_integer(opt_i64(k.max_age_seconds))),
        json_member("timeout_seconds"@, json_opt_integer(opt_u64(k.timeout_seconds))),
        json_member("disable_cache_fallback"@, json_bool(k.disable_cache_fallback)),
    ]
}

/// The JSON text of a key.
pub open spec fn key_json(k: KeyView) -> Seq<char> {
    json_object(key_members(k))
}

/// The text under which the answers for a key are kept.
pub open spec fn key_digest(k: KeyView) -> Seq<char> {
    blake3_hex(encode_utf8(key_json(k)))
}

/// The parts of a request that decide the answer, in one form.
#[derive(Debug)]
pub struct CanonicalKey {
    pub objective: Option<String>,
    pub search_queries: Vec<String>,
    pub mode: Option<SearchMode>,
    pub max_chars_total: Option<i64>,
    pub client_model: Option<String>,
    pub location: Option<String>,
    pub max_results: Option<i64>,
    pub max_chars_per_result: Option<i64>,
    pub include_domains: Vec<String>,
    pub exclude_domains: Vec<String>,
    pub after_date: Option<String>,
    pub max_age_seconds: Option<i64>,
    pub timeout_seconds: Option<u64>,
    pub disable_cache_fallback: bool,
}

impl View for CanonicalKey {
    type V = KeyView;

    open spec fn view(&self) -> KeyView {
        KeyView {
            objective: opt_text(self.objective),
            search_queries: texts(self.search_queries@),
            mode: self.mode,
            max_chars_total: self.max_chars_total,
            client_model: opt_text(self.client_model),
            location: opt_text(self.location),
            max_results: self.max_results,
            max_chars_per_result: self.max_chars_per_result,
            include_domains: texts(self.include_domains@),
            exclude_domains: texts(self.exclude_domains@),
            after_date: opt_text(self.after_date),
            max_age_seconds: self.max_age_seconds,
            timeout_seconds: self.timeout_seconds,
            disable_cache_fallback: self.disable_cache_fallback,
        }
    }
}

/// A query as a bag of keywords: its words with ASCII capitals made small, in order, with one space
/// between neighbours.
pub fn canonicalize_query(value: &str) -> (r: String)
    ensures
        r@ == keyword_bag(value@),
{
    let found = split_words(value);
    let mut tokens: Vec<Vec<char>> = Vec::new();
    for i in 0..found.len()
        invariant
            rows(tokens@) == lower_all(rows(found@).take(i as int)),
    {
        let ghost before = rows(tokens@);
        let ghost head = rows(found@).take(i as int);
        let token = lowered(&found[i]);
        let ghost text = token@;
        tokens.push(token);
        assert(rows(tokens@) == before.push(text));
        assert(rows(found@).take(i + 1) == head.push(found@[i as int]@));
        assert(lower_all(head.push(found@[i as int]@)) == lower_all(head).push(text));
    }
    assert(rows(found@).take(found@.len() as int) == rows(found@));
    let sep = " ";
    proof {
        reveal_strlit(" ");
        assert(sep@ == seq![' ']);
    }
    join_texts(&strings_of(&sort_rows(tokens)), sep)
}

/// The queries as bags of keywords, in order, none empty, each once.
fn canonical_queries(v: &Vec<String>) -> (r: Vec<String>)
    ensures
        texts(r@) == sorted_once(nonblank(keyword_bags(texts(v@)))),
{
    let mut list: Vec<Vec<char>> = Vec::new();
    for i in 0..v.len()
        invariant
            rows(list@) == nonblank(keyword_bags(texts(v@).take(i as int))),
    {
        let ghost before = rows(list@);
        let ghost head = texts(v@).take(i as int);
        let q = chars_of(canonicalize_query(v[i].as_str()).as_str());
        proof {
            assert(texts(v@).take(i + 1) == head.push(v@[i as int]@));
            assert(keyword_bags(head.push(v@[i as int]@)) == keyword_bags(head).push(q@));
            crate::model::lemma_nonblank_push(keyword_bags(head), q@);
        }
        if q.len() > 0 {
            let ghost text = q@;
            list.push(q);
            assert(rows(list@) == before.push(text));
        }
    }
    assert(texts(v@).take(v@.len() as int) == texts(v@));
    strings_of(&drop_repeats(sort_rows(list)))
}

/// Free text with its white space collapsed and ASCII capitals made small, unless nothing is left.
fn phrase_of(o: &Option<String>) -> (r: Option<String>)
    ensures
        opt_text(r) == phrase(opt_text(*o)),
{
    match o {
        Some(t) => {
            let c = string_of(&lowered(&chars_of(collapse_ws(t.as_str()).as_str())));
            if c.as_str().is_empty() {
                None
            } else {
                Some(c)
            }
        },
        None => None,
    }
}

/// The strings of `v`.
fn copy_texts(v: &Vec<String>) -> (r: Vec<String>)
    ensures
        texts(r@) == texts(v@),
{
    let mut r: Vec<String> = Vec::new();
    for i in 0..v.len()
        invariant
            texts(r@) == texts(v@).take(i as int),
    {
        let ghost before = texts(r@);
        r.push(v[i].clone());
        assert(texts(r@) == before.push(v@[i as int]@));
        assert(texts(v@).take(i + 1) == texts(v@).take(i as int).push(v@[i as int]@));
    }
    r
}

impl SearchRequest {
    /// The parts of the request that decide the answer, in one form.
    pub fn canonical_key(&self) -> (r: CanonicalKey)
        ensures
            r@ == self@.canonical(),
    {
        let mut key = CanonicalKey {
            objective: phrase_of(&self.objective),
            search_queries: canonical_queries(&self.search_queries),
            mode: self.mode,
            max_chars_total: self.max_chars_total,
            client_model: phrase_of(&self.client_model),
            location: None,
            max_results: None,
            max_chars_per_result: None,
            include_domains: Vec::new(),
            exclude_domains: Vec::new(),
            after_date: None,
            max_age_seconds: None,
            timeout_seconds: None,
            disable_cache_fallback: false,
        };
        if let Some(settings) = &self.advanced_settings {
            if let Some(location) = &settings.location {
                let l = fold(location.as_str());
                if !l.as_str().is_empty() {
                    key.location = Some(l);
                }
            }
            key.max_results = settings.max_results;
            if let Some(excerpts) = &settings.excerpt_settings {
                key.max_chars_per_result = excerpts.max_chars_per_result;
            }
            if let Some(source) = &settings.source_policy {
                let mut include_domains = copy_texts(&source.include_domains);
                normalize_domains(&mut include_domains);
                key.include_domains = include_domains;
                let mut exclude_domains = copy_texts(&source.exclude_domains);
                normalize_domains(&mut exclude_domains);
                key.exclude_domains = exclude_domains;
                key.after_date = source.after_date.clone();
            }
            if let Some(fetch) = &settings.fetch_policy {
                key.max_age_seconds = fetch.max_age_seconds;
                if let Some(timeout) = &fetch.timeout_seconds {
                    key.timeout_seconds = Some(timeout.bits);
                }
                key.disable_cache_fallback = fetch.disable_cache_fallback;
            }
        }
        assert(key@ == self@.canonical());
        key
    }

    /// The key under which the answer is kept: 64 hexadecimal digits.
    pub fn cache_key(&self) -> (r: String)
        ensures
            r@ == key_digest(self@.canonical()),
            r@ == blake3_hex(encode_utf8(key_json(self@.canonical()))),
            r@.len() == 64,
            forall|i: int| 0 <= i < 64 ==> is_hex_digit(#[trigger] r@[i]),
    {
        let json = self.canonical_key().to_json();
        hash_hex(json.as_str().as_bytes())
    }
}

impl CanonicalKey {
    /// The JSON text of the key.
    pub fn to_json(&self) -> (r: String)
        ensures
            r@ == key_json(self@),
    {
        let mode: Option<String> = match self.mode {
            Some(m) => Some(m.name()),
            None => None,
        };
        let mut members: Vec<String> = Vec::new();
        members.push(member_text("objective", opt_string_text(&self.objective).as_str()));
        members.push(
            member_text("search_queries", string_array_text(&self.search_queries).as_str()),
        );
        members.push(member_text("mode", opt_string_text(&mode).as_str()));
        members.push(member_text("max_chars_total", opt_i64_text(self.max_chars_total).as_str()));
        members.push(member_text("client_model", opt_string_text(&self.client_model).as_str()));
        members.push(member_text("location", opt_string_text(&self.location).as_str()));
        members.push(member_text("max_results", opt_i64_text(self.max_results).as_str()));
        members.push(
            member_text("max_chars_per_result", opt_i64_text(self.max_chars_per_result).as_str()),
        );
        members.push(
            member_text("include_domains", string_array_text(&self.include_domains).as_str()),
        );
        members.push(
            member_text("exclude_domains", string_array_text(&self.exclude_domains).as_str()),
        );
        members.push(member_text("after_date", opt_string_text(&self.after_date).as_str()));
        members.push(member_text("max_age_seconds", opt_i64_text(self.max_age_seconds).as_str()));
        members.push(member_text("timeout_seconds", opt_u64_text(self.timeout_seconds).as_str()));
        members.push(
            member_text("disable_cache_fallback", bool_text(self.disable_cache_fallback).as_str()),
        );
        assert(opt_text(mode) == opt_mode_name(self.mode));
        assert(texts(members@) == key_members(self@));
        object_text(&members)
    }
}

} // verus!
