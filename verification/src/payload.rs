//! The body of the request that is sent upstream.

use vstd::prelude::*;

use crate::json::{
    bool_text, json_array, json_bool, json_member, json_object, json_string, json_strings,
    member_text, object_text, string_array_text, string_text,
};
use crate::model::{
    mode_name, AdvancedSearchSettings, ExcerptSettings, FetchPolicy, FetchView, RequestView,
    SearchRequest, SettingsView, SourcePolicy, SourceView,
};
use crate::number::{integer_text, signed_text};
use crate::text::{opt_text, texts};

verus! {

/// A member that is left out where there is no value.
pub open spec fn opt_member(name: Seq<char>, value: Option<Seq<char>>) -> Seq<Seq<char>> {
    match value {
        Some(v) => seq![json_member(name, v)],
        None => Seq::empty(),
    }
}

/// The JSON string of what is there.
pub open spec fn string_value(o: Option<Seq<char>>) -> Option<Seq<char>> {
    match o {
        Some(s) => Some(json_string(s)),
        None => None,
    }
}

/// The JSON text of the number that is there.
pub open spec fn integer_value(o: Option<i64>) -> Option<Seq<char>> {
    match o {
        Some(n) => Some(integer_text(n as int)),
        None => None,
    }
}

/// The JSON array of strings, unless there are none.
pub open spec fn list_value(s: Seq<Seq<char>>) -> Option<Seq<char>> {
    if s.len() == 0 {
        None
    } else {
        Some(json_array(json_strings(s)))
    }
}

impl SourceView {
    /// The JSON object of a source policy; what is empty is left out.
    pub open spec fn json(self) -> Seq<char> {
        json_object(
            opt_member("include_domains"@, list_value(self.include_domains)) + opt_member(
                "exclude_domains"@,
                list_value(self.exclude_domains),
            ) + opt_member("after_date"@, string_value(self.after_date)),
        )
    }
}

impl FetchView {
    /// The JSON object of a fetch policy; what is not set is left out.
    pub open spec fn json(self) -> Seq<char> {
        json_object(
            opt_member("max_age_seconds"@, integer_value(self.max_age_seconds)) + opt_member(
                "timeout_seconds"@,
                match self.timeout_seconds {
                    Some(t) => Some(t.json),
                    None => None,
                },
            ) + opt_member(
                "disable_cache_fallback"@,
                if self.disable_cache_fallback {
                    Some(json_bool(true))
                } else {
                    None
                },
            ),
        )
    }
}

/// The JSON object of excerpt settings; what is not set is left out.
pub open spec fn excerpt_json(e: ExcerptSettings) -> Seq<char> {
    json_object(opt_member("max_chars_per_result"@, integer_value(e.max_chars_per_result)))
}

impl SettingsView {
    /// The JSON object of the rarer settings; what is not set is left out.
    pub open spec fn json(self) -> Seq<char> {
        json_object(
            opt_member(
                "source_policy"@,
                match self.source_policy {
                    Some(p) => Some(p.json()),
                    None => None,
                },
            ) + opt_member(
                "fetch_policy"@,
                match self.fetch_policy {
                    Some(p) => Some(p.json()),
                    None => None,
                },
            ) + opt_member(
                "excerpt_settings"@,
                match self.excerpt_settings {
                    Some(e) => Some(excerpt_json(e)),
                    None => None,
                },
            ) + opt_member("location"@, string_value(self.location)) + opt_member(
                "max_results"@,
                integer_value(self.max_results),
            ),
        )
    }
}

impl RequestView {
    /// The JSON object that is sent upstream for the request. What is not set is left out, and so
    /// is the session.
    pub open spec fn payload(self) -> Seq<char> {
        json_object(
            opt_member("objective"@, string_value(self.objective)) + seq![
                json_member("search_queries"@, json_array(json_strings(self.search_queries))),
            ] + opt_member(
                "mode"@,
                match self.mode {
                    Some(m) => Some(json_string(mode_name(m))),
                    None => None,
                },
            ) + opt_member("max_chars_total"@, integer_value(self.max_chars_total)) + opt_member(
                "client_model"@,
                string_value(self.client_model),
            ) + opt_member(
                "advanced_settings"@,
                match self.advanced_settings {
                    Some(a) => Some(a.json()),
                    None => None,
                },
            ),
        )
    }
}

/// The session is not sent upstream: whatever it is, the body is the same.
pub proof fn law_session_is_not_sent(r: RequestView, session: Option<Seq<char>>)
    ensures
        (RequestView { session_id: session, ..r }).payload() == r.payload(),
{
}

/// Puts the member `name` behind the others where there is a value.
fn push_member(members: &mut Vec<String>, name: &str, value: Option<String>)
    ensures
        texts(final(members)@) == texts(old(members)@) + opt_member(name@, opt_text(value)),
{
    let ghost before = texts(members@);
    if let Some(v) = value {
        members.push(member_text(name, v.as_str()));
        assert(texts(members@) == before.push(json_member(name@, v@)));
    }
    assert(texts(members@) == before + opt_member(name@, opt_text(value)));
}

fn string_value_of(o: &Option<String>) -> (r: Option<String>)
    ensures
        opt_text(r) == string_value(opt_text(*o)),
{
    match o {
        Some(s) => Some(string_text(s.as_str())),
        None => None,
    }
}

fn integer_value_of(o: Option<i64>) -> (r: Option<String>)
    ensures
        opt_text(r) == integer_value(o),
{
    match o {
        Some(n) => Some(signed_text(n)),
        None => None,
    }
}

fn list_value_of(v: &Vec<String>) -> (r: Option<String>)
    ensures
        opt_text(r) == list_value(texts(v@)),
{
    if v.len() == 0 {
        None
    } else {
        Some(string_array_text(v))
    }
}

impl SourcePolicy {
    /// The JSON object of the policy; what is empty is left out.
    pub fn to_json(&self) -> (r: String)
        ensures
            r@ == self@.json(),
    {
        let mut members: Vec<String> = Vec::new();
        push_member(&mut members, "include_domains", list_value_of(&self.include_domains));
        push_member(&mut members, "exclude_domains", list_value_of(&self.exclude_domains));
        push_member(&mut members, "after_date", string_value_of(&self.after_date));
        assert(texts(members@) == opt_member("include_domains"@, list_value(self@.include_domains))
            + opt_member("exclude_domains"@, list_value(self@.exclude_domains)) + opt_member(
            "after_date"@,
            string_value(self@.after_date),
        ));
        object_text(&members)
    }
}

impl FetchPolicy {
    /// The JSON object of the policy; what is not set is left out.
    pub fn to_json(&self) -> (r: String)
        ensures
            r@ == self@.json(),
    {
        let timeout: Option<String> = match &self.timeout_seconds {
            Some(t) => Some(t.json.clone()),
            None => None,
        };
        let fallback: Option<String> = if self.disable_cache_fallback {
            Some(bool_text(true))
        } else {
            None
        };
        let ghost timeout_text = opt_text(timeout);
        let ghost fallback_text = opt_text(fallback);
        let mut members: Vec<String> = Vec::new();
        push_member(&mut members, "max_age_seconds", integer_value_of(self.max_age_seconds));
        push_member(&mut members, "timeout_seconds", timeout);
        push_member(&mut members, "disable_cache_fallback", fallback);
        assert(texts(members@) == opt_member(
            "max_age_seconds"@,
            integer_value(self.max_age_seconds),
        ) + opt_member("timeout_seconds"@, timeout_text) + opt_member(
            "disable_cache_fallback"@,
            fallback_text,
        ));
        object_text(&members)
    }
}

impl ExcerptSettings {
    /// The JSON object of the settings; what is not set is left out.
    pub fn to_json(&self) -> (r: String)
        ensures
            r@ == excerpt_json(*self),
    {
        let mut members: Vec<String> = Vec::new();
        push_member(
            &mut members,
            "max_chars_per_result",
            integer_value_of(self.max_chars_per_result),
        );
        assert(texts(members@) == opt_member(
            "max_chars_per_result"@,
            integer_value(self.max_chars_per_result),
        ));
        object_text(&members)
    }
}

impl AdvancedSearchSettings {
    /// The JSON object of the settings; what is not set is left out.
    pub fn to_json(&self) -> (r: String)
        ensures
            r@ == self@.json(),
    {
        let source: Option<String> = match &self.source_policy {
            Some(p) => Some(p.to_json()),
            None => None,
        };
        let fetch: Option<String> = match &self.fetch_policy {
            Some(p) => Some(p.to_json()),
            None => None,
        };
        let excerpts: Option<String> = match &self.excerpt_settings {
            Some(e) => Some(e.to_json()),
            None => None,
        };
        let ghost source_text = opt_text(source);
        let ghost fetch_text = opt_text(fetch);
        let ghost excerpts_text = opt_text(excerpts);
        let mut members: Vec<String> = Vec::new();
        push_member(&mut members, "source_policy", source);
        push_member(&mut members, "fetch_policy", fetch);
        push_member(&mut members, "excerpt_settings", excerpts);
        push_member(&mut members, "location", string_value_of(&self.location));
        push_member(&mut members, "max_results", integer_value_of(self.max_results));
        assert(texts(members@) == opt_member("source_policy"@, source_text) + opt_member(
            "fetch_policy"@,
            fetch_text,
        ) + opt_member("excerpt_settings"@, excerpts_text) + opt_member(
            "location"@,
            string_value(self@.location),
        ) + opt_member("max_results"@, integer_value(self@.max_results)));
        object_text(&members)
    }
}

impl SearchRequest {
    /// The JSON object that is sent upstream for the request. What is not set is left out, and so
    /// is the session.
    pub fn upstream_payload(&self) -> (r: String)
        ensures
            r@ == self@.payload(),
    {
        let mode: Option<String> = match self.mode {
            Some(m) => Some(string_text(m.name().as_str())),
            None => None,
        };
        let settings: Option<String> = match &self.advanced_settings {
            Some(a) => Some(a.to_json()),
            None => None,
        };
        let ghost mode_text = opt_text(mode);
        let ghost settings_text = opt_text(settings);
        let mut members: Vec<String> = Vec::new();
        push_member(&mut members, "objective", string_value_of(&self.objective));
        push_member(
            &mut members,
            "search_queries",
            Some(string_array_text(&self.search_queries)),
        );
        push_member(&mut members, "mode", mode);
        push_member(&mut members, "max_chars_total", integer_value_of(self.max_chars_total));
        push_member(&mut members, "client_model", string_value_of(&self.client_model));
        push_member(&mut members, "advanced_settings", settings);
        assert(texts(members@) == opt_member("objective"@, string_value(self@.objective)) + seq![
            json_member("search_queries"@, json_array(json_strings(self@.search_queries))),
        ] + opt_member("mode"@, mode_text) + opt_member(
            "max_chars_total"@,
            integer_value(self@.max_chars_total),
        ) + opt_member("client_model"@, string_value(self@.client_model)) + opt_member(
            "advanced_settings"@,
            settings_text,
        ));
        object_text(&members)
    }
}

} // verus!
