//! What clients are told, and why.

use vstd::prelude::*;
use vstd::utf8::{decode_utf8, encode_utf8, valid_utf8};

use crate::cache::{etag_of, left_after, weight_of};
use crate::config::CdnCacheMode;
use crate::handlers::{
    bad_request, begun, counted, error_page_control, failure, health_json, provided_key, rewritten,
    served, unauthorized, Counter, HealthView,
};
use crate::hash::blake3_hex;
use crate::json::{json_array, json_member, json_object, json_string};
use crate::key::key_digest;
use crate::model::SearchMode;
use crate::number::decimal;
use crate::parallel::{accepted, utf8_lossy, without_slashes, ErrorView};
use crate::query::IncomingView;
use crate::reply::{
    cache_control, error_json, has_label, header_value, json_reply, key_label,
    law_listed_tag_is_found, law_other_tags_are_not_found, lists_tag, BodyView, ReplyView,
};
use crate::response::{
    json_document, json_value_text, member_named, projected, projected_response, value_texts,
    DocumentView, MemberView, ProjectionView,
};
use crate::text::{join, trim};

verus! {

/// The reply to a search is 304 with nothing behind it exactly where the client lists the tag of
/// what is kept, on hits and misses alike; otherwise it is 200 with the whole body.
pub proof fn law_only_the_own_tag_revalidates(
    body: Seq<u8>,
    etag: Seq<char>,
    secs: nat,
    mode: CdnCacheMode,
    hit: bool,
    key: Seq<char>,
    if_none_match: Option<Seq<char>>,
)
    ensures
        (if_none_match matches Some(h) ==> !lists_tag(h, etag)) ==> ({
            let r = served(body, etag, secs, mode, hit, key, if_none_match);
            r.status == 200 && r.content_type == Some("application/json"@) && r.body
                == BodyView::Kept(body)
        }),
        (if_none_match matches Some(h) && lists_tag(h, etag)) ==> ({
            let r = served(body, etag, secs, mode, hit, key, if_none_match);
            r.status == 304 && r.content_type is None && r.body == BodyView::Empty
        }),
{
}

/// A client that lists other tags only is given the whole body.
pub proof fn law_outdated_tags_get_the_whole_body(
    body: Seq<u8>,
    etag: Seq<char>,
    secs: nat,
    mode: CdnCacheMode,
    hit: bool,
    key: Seq<char>,
    listed: Seq<Seq<char>>,
)
    requires
        listed.len() > 0,
        forall|j: int| 0 <= j < listed.len() ==> !(#[trigger] listed[j]).contains(','),
        forall|j: int| 0 <= j < listed.len() ==> trim(#[trigger] listed[j]) != etag,
    ensures
        ({
            let r = served(body, etag, secs, mode, hit, key, Some(join(listed, seq![','])));
            r.status == 200 && r.content_type == Some("application/json"@) && r.body
                == BodyView::Kept(body)
        }),
{
    law_other_tags_are_not_found(listed, etag);
}

/// A client that lists the tag among others is told that it has the answer.
pub proof fn law_own_tag_among_others_revalidates(
    body: Seq<u8>,
    etag: Seq<char>,
    secs: nat,
    mode: CdnCacheMode,
    hit: bool,
    key: Seq<char>,
    listed: Seq<Seq<char>>,
    i: int,
)
    requires
        0 <= i < listed.len(),
        forall|j: int| 0 <= j < listed.len() ==> !(#[trigger] listed[j]).contains(','),
        trim(listed[i]) == etag,
    ensures
        ({
            let r = served(body, etag, secs, mode, hit, key, Some(join(listed, seq![','])));
            r.status == 304 && r.content_type is None && r.body == BodyView::Empty
        }),
{
    law_listed_tag_is_found(listed, i, etag);
}

/// Whatever the client lists, the headers tell the tag, whether it was a hit, the label of the key
/// and what caches may do, each by its own cause alone.
pub proof fn law_served_headers(
    body: Seq<u8>,
    etag: Seq<char>,
    secs: nat,
    mode: CdnCacheMode,
    hit: bool,
    key: Seq<char>,
    if_none_match: Option<Seq<char>>,
)
    ensures
        ({
            let r = served(body, etag, secs, mode, hit, key, if_none_match);
            &&& r.cache_control == Some(cache_control(mode, secs))
            &&& r.etag == header_value(etag)
            &&& hit ==> r.x_cache == Some("HIT"@)
            &&& !hit ==> r.x_cache == Some("MISS"@)
            &&& r.x_cache_key == header_value(key_label(key))
        }),
{
    crate::reply::law_cache_control_is_sent(mode, secs);
}

/// Whether `c` is a control character other than a tab.
pub open spec fn is_control(c: char) -> bool {
    c != '\t' && (c < ' ' || c == '\u{7f}')
}

/// Text can be sent in a header exactly where it holds no control character but tabs, and is then
/// sent as it is.
pub proof fn law_header_text(s: Seq<char>)
    ensures
        header_value(s) is Some <==> (forall|i: int| 0 <= i < s.len() ==> !is_control(#[trigger] s[i])),
        header_value(s) matches Some(v) ==> v == s,
{
    if forall|i: int| 0 <= i < s.len() ==> !is_control(#[trigger] s[i]) {
        assert forall|i: int| 0 <= i < s.len() implies crate::reply::is_header_char(
            #[trigger] s[i],
        ) by {
            assert(!is_control(s[i]));
            lemma_header_char(s[i]);
        }
    }
    if header_value(s) is Some {
        assert forall|i: int| 0 <= i < s.len() implies !is_control(#[trigger] s[i]) by {
            assert(crate::reply::is_header_char(s[i]));
            lemma_header_char(s[i]);
        }
    }
}

proof fn lemma_header_char(c: char)
    ensures
        crate::reply::is_header_char(c) <==> !is_control(c),
{
}

/// The label of a key is made of its first 16 bytes, or of all where there are fewer.
pub proof fn law_label_is_the_first_bytes(key: Seq<char>)
    requires
        has_label(key),
    ensures
        encode_utf8(key).len() >= 16 ==> encode_utf8(key_label(key)) == encode_utf8(key).subrange(
            0,
            16,
        ),
        encode_utf8(key).len() < 16 ==> key_label(key) == key,
{
    let bytes = encode_utf8(key);
    let n = crate::reply::label_len(key);
    vstd::utf8::encode_utf8_valid_utf8(key);
    vstd::utf8::valid_utf8_split(bytes, n);
    vstd::utf8::decode_utf8_encode_utf8(bytes.subrange(0, n));
    vstd::utf8::encode_utf8_decode_utf8(key);
    if bytes.len() < 16 {
        assert(bytes.subrange(0, n) == bytes);
    }
}

/// How long an answer may be held is told in whole seconds, behind the words of the mode; a public
/// one may be served stale for as long again, and for an hour where asking fails.
pub proof fn law_cache_control_tells_the_time(secs: nat)
    ensures
        ("public, max-age="@ + decimal(secs) + ","@).is_prefix_of(
            cache_control(CdnCacheMode::Public, secs),
        ),
        (", stale-while-revalidate="@ + decimal(secs) + ", stale-if-error=3600"@).is_suffix_of(
            cache_control(CdnCacheMode::Public, secs),
        ),
        cache_control(CdnCacheMode::Public, secs).len() == 16 + 2 * decimal(secs).len() + 46,
        "private, max-age="@.is_prefix_of(cache_control(CdnCacheMode::Private, secs)),
        decimal(secs).is_suffix_of(cache_control(CdnCacheMode::Private, secs)),
        cache_control(CdnCacheMode::Private, secs).len() == 17 + decimal(secs).len(),
        cache_control(CdnCacheMode::Off, secs) == "no-store"@,
{
    reveal_strlit("public, max-age=");
    reveal_strlit(",");
    reveal_strlit(", stale-while-revalidate=");
    reveal_strlit(", stale-if-error=3600");
    reveal_strlit("private, max-age=");
    let d = decimal(secs);
    let p = cache_control(CdnCacheMode::Public, secs);
    let a = "public, max-age="@ + d + ","@;
    let b = ", stale-while-revalidate="@ + d + ", stale-if-error=3600"@;
    assert("public, max-age="@.len() == 16);
    assert(", stale-while-revalidate="@.len() == 25);
    assert(", stale-if-error=3600"@.len() == 21);
    assert("private, max-age="@.len() == 17);
    assert(", stale-while-revalidate="@[0] == ',');
    assert(a == p.subrange(0, a.len() as int));
    assert(b == p.subrange(p.len() - b.len(), p.len() as int));
    let q = cache_control(CdnCacheMode::Private, secs);
    assert("private, max-age="@ == q.subrange(0, 17));
    assert(d == q.subrange(q.len() - d.len(), q.len() as int));
}

/// What is wrong is told in an object with the one member `error`.
pub proof fn law_error_text(message: Seq<char>)
    ensures
        error_json(message) == "{\"error\":"@ + json_string(message) + "}"@,
{
    reveal_strlit("error");
    reveal_strlit("{\"error\":");
    reveal_strlit("}");
    let m = json_member("error"@, json_string(message));
    assert(join(seq![m], seq![',']) == m);
    assert(error_json(message) == seq!['{'] + m + seq!['}']);
    assert("{\"error\":"@ == seq!['{', '"'] + "error"@ + seq!['"', ':']);
    assert("}"@ == seq!['}']);
    assert(error_json(message) == "{\"error\":"@ + json_string(message) + "}"@);
}

/// Whether a reply is JSON text with this status and these words on caching, and nothing else.
pub open spec fn tells(r: ReplyView, status: u16, control: Seq<char>, text: Seq<char>) -> bool {
    &&& r.status == status
    &&& r.cache_control == Some(control)
    &&& r.body == BodyView::Json(text)
    &&& r.etag is None && r.x_cache is None && r.x_cache_key is None && r.content_type is None
}

/// A reply of JSON text has the status, the words on caching and the text that it is made of, and no
/// other header.
pub proof fn law_json_replies(status: u16, control: Option<Seq<char>>, text: Seq<char>)
    ensures
        json_reply(status, control, text) == (ReplyView {
            status,
            cache_control: control,
            etag: None,
            x_cache: None,
            x_cache_key: None,
            content_type: None,
            body: BodyView::Json(text),
        }),
{
}

/// Requests that make no sense get 400, which may be held for a while; requests without the key get
/// 401, which may not be stored.
pub proof fn law_refusals(message: Seq<char>)
    ensures
        tells(bad_request(message), 400, "public, max-age=300"@, error_json(message)),
        tells(unauthorized(), 401, "no-store"@, error_json("invalid or missing x-api-key"@)),
{
}

/// The key of a request is that in its header; that in its query counts only where the header has
/// none.
pub proof fn law_header_key_comes_first(header: Option<Seq<char>>, query: Option<Seq<char>>)
    ensures
        header is Some ==> provided_key(header, query) == header,
        header is None ==> provided_key(header, query) == query,
{
}

/// Failed searches are answered with the upstream status and text, or with 502 where there is no
/// upstream answer; none may be stored.
pub proof fn law_failures(status: u16, body: Seq<char>, reason: Seq<char>)
    ensures
        rewritten(body) matches Some(text) ==> tells(
            failure(ErrorView::Upstream { status, body }),
            status,
            "no-store"@,
            text,
        ),
        rewritten(body) is None ==> tells(
            failure(ErrorView::Upstream { status, body }),
            status,
            "no-store"@,
            error_json(body),
        ),
        tells(
            failure(ErrorView::Transport(reason)),
            502,
            "no-store"@,
            error_json("search origin unavailable"@),
        ),
{
}

/// Error pages may be held for a path that is not there and for a method that it does not take, and
/// for nothing else.
pub proof fn law_error_pages(status: Option<u16>)
    ensures
        status matches Some(code) && (code == 404 || code == 405) ==> error_page_control(status)
            == "public, max-age=3600"@,
        !(status matches Some(code) && (code == 404 || code == 405)) ==> error_page_control(status)
            == "no-store"@,
{
}

/// Each search that ends is counted once: as a hit, as a miss, or as an upstream error.
pub proof fn law_each_end_is_counted<E, F>(outcome: Result<(E, bool), F>)
    ensures
        counted(outcome) == Counter::Hits <==> (outcome matches Ok(p) && p.1),
        counted(outcome) == Counter::Misses <==> (outcome matches Ok(p) && !p.1),
        counted(outcome) == Counter::UpstreamErrors <==> outcome is Err,
{
}

/// The report on health has each number under its name, and says that all is well.
pub proof fn law_health_reports_each_number(h: HealthView)
    ensures
        exists|ms: Seq<Seq<char>>, os: Seq<Seq<char>>|
            {
                &&& #[trigger] json_object(os) == health_json(Some(h))
                &&& os.len() == 2
                &&& os.contains(json_member("ok"@, "true"@))
                &&& os.contains(json_member("cache"@, #[trigger] json_object(ms)))
                &&& ms.len() == 6
                &&& ms.contains(json_member("entries"@, decimal(h.entries as nat)))
                &&& ms.contains(json_member("bytes"@, decimal(h.bytes as nat)))
                &&& ms.contains(json_member("hits"@, decimal(h.hits as nat)))
                &&& ms.contains(json_member("misses"@, decimal(h.misses as nat)))
                &&& ms.contains(json_member("upstream_errors"@, decimal(h.upstream_errors as nat)))
                &&& ms.contains(json_member("hit_rate"@, h.hit_rate))
            },
        health_json(None) == json_object(seq![json_member("ok"@, "true"@)]),
{
    reveal_strlit("true");
    assert("true"@ == crate::json::json_bool(true));
    let ms = seq![
        json_member("bytes"@, decimal(h.bytes as nat)),
        json_member("entries"@, decimal(h.entries as nat)),
        json_member("hit_rate"@, h.hit_rate),
        json_member("hits"@, decimal(h.hits as nat)),
        json_member("misses"@, decimal(h.misses as nat)),
        json_member("upstream_errors"@, decimal(h.upstream_errors as nat)),
    ];
    let os = seq![json_member("cache"@, json_object(ms)), json_member("ok"@, "true"@)];
    assert(json_object(os) == health_json(Some(h)));
    assert(os[0] == json_member("cache"@, json_object(ms)) && os[1] == json_member("ok"@, "true"@));
    assert(ms.contains(ms[0]) && ms.contains(ms[1]) && ms.contains(ms[2]) && ms.contains(ms[3])
        && ms.contains(ms[4]) && ms.contains(ms[5]));
    assert(os.contains(os[0]) && os.contains(os[1]));
}

/// A search that could not be read is refused with the reason; one that has no query once it is in
/// shape is refused for that; any other is looked for under its key, and asked for in that shape.
pub proof fn law_searches_go_on(incoming: IncomingView, m: SearchMode)
    ensures
        incoming.request() matches Err(e) ==> begun(incoming, m) is Refuse && tells(
            begun(incoming, m)->Refuse_0,
            400,
            "public, max-age=300"@,
            error_json(e),
        ),
        incoming.request() matches Ok(asked) ==> (if asked.normalized(m).search_queries.len() == 0 {
            begun(incoming, m) is Refuse && tells(
                begun(incoming, m)->Refuse_0,
                400,
                "public, max-age=300"@,
                error_json("search_queries is required (or provide objective)"@),
            )
        } else {
            begun(incoming, m) is Fetch && begun(incoming, m)->request == asked.normalized(m)
                && begun(incoming, m)->key == key_digest(asked.normalized(m).canonical())
        }),
{
}

/// An upstream answer is taken, as it is, exactly where its status is from 200 to 299 and nothing is
/// wrong with its JSON; otherwise the error tells the upstream status and text, or 502 and what is
/// wrong.
pub proof fn law_upstream_answers(status: u16, body: Seq<u8>, fault: Option<Seq<char>>)
    ensures
        200 <= status <= 299 && fault is None ==> accepted(status, body, fault) == Ok::<
            Seq<u8>,
            ErrorView,
        >(body),
        200 <= status <= 299 && fault is Some ==> accepted(status, body, fault) == Err::<
            Seq<u8>,
            ErrorView,
        >(
            ErrorView::Upstream {
                status: 502,
                body: "invalid JSON from Parallel: "@ + fault->0,
            },
        ),
        (status < 200 || status > 299) && valid_utf8(body) ==> accepted(status, body, fault)
            == Err::<Seq<u8>, ErrorView>(
            ErrorView::Upstream { status, body: decode_utf8(body) },
        ),
        (status < 200 || status > 299) && !valid_utf8(body) ==> accepted(status, body, fault)
            == Err::<Seq<u8>, ErrorView>(
            ErrorView::Upstream { status, body: utf8_lossy(body) },
        ),
{
}

/// An error that the upstream service wrote in UTF-8 reaches the client as it was written.
pub proof fn law_upstream_text_comes_through(status: u16, text: Seq<char>, fault: Option<Seq<char>>)
    requires
        status < 200 || status > 299,
    ensures
        accepted(status, encode_utf8(text), fault) == Err::<Seq<u8>, ErrorView>(
            ErrorView::Upstream { status, body: text },
        ),
{
    vstd::utf8::encode_utf8_valid_utf8(text);
    vstd::utf8::encode_utf8_decode_utf8(text);
}

/// Only slashes at the end of an address are dropped, and all of them.
pub proof fn law_only_slashes_at_the_end_go(s: Seq<char>)
    ensures
        without_slashes(s).is_prefix_of(s),
        forall|i: int| without_slashes(s).len() <= i < s.len() ==> #[trigger] s[i] == '/',
        without_slashes(s).len() > 0 ==> without_slashes(s).last() != '/',
    decreases s.len(),
{
    if s.len() > 0 && s.last() == '/' {
        let t = s.drop_last();
        law_only_slashes_at_the_end_go(t);
        let w = without_slashes(t);
        assert(w == t.subrange(0, w.len() as int));
        assert(w == s.subrange(0, w.len() as int));
        assert forall|i: int| w.len() <= i < s.len() implies #[trigger] s[i] == '/' by {
            if i < t.len() {
                assert(t[i] == '/');
            }
        }
    } else {
        assert(s == s.subrange(0, s.len() as int));
    }
}

/// The first member of a name is the one that is found, and none exactly where no member has it.
pub proof fn law_first_member_is_found(
    members: Seq<(Seq<char>, MemberView)>,
    name: Seq<char>,
    i: int,
)
    requires
        0 <= i <= members.len(),
        forall|j: int| 0 <= j < i ==> (#[trigger] members[j]).0 != name,
        i < members.len() ==> members[i].0 == name,
    ensures
        i < members.len() ==> member_named(members, name) == Some(members[i].1),
        i == members.len() ==> member_named(members, name) is None,
    decreases members.len(),
{
    if members.len() > 0 && i > 0 {
        assert(members[0].0 != name);
        let rest = members.drop_first();
        assert forall|j: int| 0 <= j < i - 1 implies (#[trigger] rest[j]).0 != name by {
            assert(members[j + 1].0 != name);
        }
        law_first_member_is_found(rest, name, i - 1);
    }
}

/// Of an upstream object all of the results are shown, in order, and all of the warnings where they
/// are an array; results that are no array, and anything but an object, are refused.
pub proof fn law_results_and_warnings_are_shown(
    members: Seq<(Seq<char>, MemberView)>,
    v: serde_json::Value,
)
    ensures
        ({
            let d = DocumentView::Object(members);
            let results = member_named(members, "results"@);
            let warnings = member_named(members, "warnings"@);
            &&& results matches Some(MemberView::Other(_)) ==> projected(d) == Err::<
                ProjectionView,
                Seq<char>,
            >("invalid JSON from Parallel: results must be an array"@)
            &&& !(results matches Some(MemberView::Other(_))) ==> projected(d) is Ok
            &&& results matches Some(MemberView::Array(items)) ==> projected(d)->Ok_0.results
                == items
            &&& results is None ==> projected(d)->Ok_0.results.len() == 0
            &&& warnings matches Some(MemberView::Array(items)) ==> (projected(d) is Ok
                ==> projected(d)->Ok_0.warnings == items)
            &&& projected(d) is Ok && !(warnings matches Some(MemberView::Array(_))) ==> projected(
                d,
            )->Ok_0.warnings.len() == 0
        }),
        projected(DocumentView::Other(v)) == Err::<ProjectionView, Seq<char>>(
            "invalid JSON from Parallel: expected object"@,
        ),
{
}

/// What is shown is an object of the results, each by its text and in order, and of the warnings in
/// the same way where there are any.
pub proof fn law_shown_text(p: ProjectionView)
    ensures
        value_texts(p.results).len() == p.results.len(),
        forall|i: int|
            0 <= i < p.results.len() ==> #[trigger] value_texts(p.results)[i] == json_value_text(
                p.results[i],
            ),
        p.warnings.len() == 0 ==> p.json() == "{\"results\":"@ + json_array(value_texts(p.results))
            + "}"@,
        p.warnings.len() > 0 ==> p.json() == "{\"results\":"@ + json_array(value_texts(p.results))
            + ",\"warnings\":"@ + json_array(value_texts(p.warnings)) + "}"@,
{
    reveal_strlit("results");
    reveal_strlit("warnings");
    reveal_strlit("{\"results\":");
    reveal_strlit(",\"warnings\":");
    reveal_strlit("}");
    let r = json_array(value_texts(p.results));
    let w = json_array(value_texts(p.warnings));
    let a = json_member("results"@, r);
    let b = json_member("warnings"@, w);
    let comma = seq![','];
    assert(join(seq![a], comma) == a);
    assert(seq![a, b].drop_last() == seq![a]);
    assert(join(seq![a, b], comma) == a + comma + b);
    assert("{\"results\":"@ == seq!['{', '"'] + "results"@ + seq!['"', ':']);
    assert(",\"warnings\":"@ == seq![',', '"'] + "warnings"@ + seq!['"', ':']);
    assert("}"@ == seq!['}']);
    assert(json_object(seq![a]) == "{\"results\":"@ + r + "}"@);
    assert(json_object(seq![a, b]) == "{\"results\":"@ + r + ",\"warnings\":"@ + w + "}"@);
}

/// The public body is the text of what is shown; what is no JSON is refused with the reason.
pub proof fn law_public_body(raw: Seq<u8>)
    ensures
        json_document(raw) matches Err(e) ==> projected_response(raw) == Err::<Seq<u8>, Seq<char>>(
            "invalid JSON from Parallel: "@ + e,
        ),
        json_document(raw) matches Ok(d) ==> (projected(d) is Err ==> projected_response(raw)
            == Err::<Seq<u8>, Seq<char>>(projected(d)->Err_0)),
        json_document(raw) matches Ok(d) ==> (projected(d) is Ok ==> projected_response(raw) is Ok
            && decode_utf8(projected_response(raw)->Ok_0) == projected(d)->Ok_0.json()),
{
    if let Ok(d) = json_document(raw) {
        if let Ok(p) = projected(d) {
            vstd::utf8::encode_utf8_decode_utf8(p.json());
        }
    }
}

/// What is left of a lifetime and what has passed make up the lifetime; nothing is left once it has
/// passed.
pub proof fn law_time_left_and_time_passed(ttl: nat, elapsed: nat)
    ensures
        elapsed <= ttl ==> left_after(ttl, elapsed) + elapsed == ttl,
        elapsed >= ttl ==> left_after(ttl, elapsed) == 0,
{
}

/// The tag of a body is in quotes and holds the first 16 digits of its digest, so that bodies with
/// different such digits have different tags.
pub proof fn law_tag_is_the_digest(a: Seq<u8>, b: Seq<u8>)
    ensures
        blake3_hex(a).len() >= 16 && blake3_hex(b).len() >= 16 ==> {
            &&& etag_of(a).len() == 18
            &&& etag_of(a)[0] == '"' && etag_of(a)[17] == '"'
            &&& etag_of(a).subrange(1, 17) == blake3_hex(a).subrange(0, 16)
            &&& etag_of(a) == etag_of(b) <==> blake3_hex(a).subrange(0, 16) == blake3_hex(
                b,
            ).subrange(0, 16)
        },
{
    if blake3_hex(a).len() >= 16 && blake3_hex(b).len() >= 16 {
        assert(etag_of(a).subrange(1, 17) == blake3_hex(a).subrange(0, 16));
        assert(etag_of(b).subrange(1, 17) == blake3_hex(b).subrange(0, 16));
        assert(blake3_hex(a).take(16) == blake3_hex(a).subrange(0, 16));
        assert(blake3_hex(b).take(16) == blake3_hex(b).subrange(0, 16));
    }
}

/// An entry weighs the bytes of body, tag and key, up to the largest weight there is.
pub proof fn law_weight_counts_bytes(n: nat, etag: Seq<char>, key: Seq<char>)
    ensures
        n + encode_utf8(etag).len() + encode_utf8(key).len() <= 0xffff_ffff ==> weight_of(
            n,
            etag,
            key,
        ) == n + encode_utf8(etag).len() + encode_utf8(key).len(),
        n + encode_utf8(etag).len() + encode_utf8(key).len() > 0xffff_ffff ==> weight_of(
            n,
            etag,
            key,
        ) == 0xffff_ffff,
{
}

} // verus!
