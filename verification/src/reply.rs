//! Replies: status, headers and body, and what caches downstream may do with them.

use vstd::prelude::*;
use vstd::utf8::{decode_utf8, encode_utf8, is_ascii_chars, is_char_boundary};

use crate::config::CdnCacheMode;
use crate::json::{json_member, json_object, json_string, member_text, object_text, string_text};
use crate::number::{decimal, decimal_text};
use crate::order::same_text;
use crate::text::{chars_of, opt_text, pieces, rows, split_on, string_of, texts, trim, trimmed};

verus! {

/// The body of a reply.
pub enum ReplyBody<'a> {
    /// None.
    Empty,
    /// JSON text.
    Json(String),
    /// The body of an answer that is kept.
    Kept(&'a Vec<u8>),
}

/// A reply: its status, the headers that it has, and its body. `content_type` is there only where
/// it is not that of JSON text in general.
pub struct Reply<'a> {
    pub status: u16,
    pub cache_control: Option<String>,
    pub etag: Option<String>,
    pub x_cache: Option<String>,
    pub x_cache_key: Option<String>,
    pub content_type: Option<String>,
    pub body: ReplyBody<'a>,
}

/// What a body holds.
#[verifier::ext_equal]
pub enum BodyView {
    Empty,
    Json(Seq<char>),
    Kept(Seq<u8>),
}

/// What a reply holds.
#[verifier::ext_equal]
pub struct ReplyView {
    pub status: u16,
    pub cache_control: Option<Seq<char>>,
    pub etag: Option<Seq<char>>,
    pub x_cache: Option<Seq<char>>,
    pub x_cache_key: Option<Seq<char>>,
    pub content_type: Option<Seq<char>>,
    pub body: BodyView,
}

impl<'a> View for ReplyBody<'a> {
    type V = BodyView;

    open spec fn view(&self) -> BodyView {
        match self {
            ReplyBody::Empty => BodyView::Empty,
            ReplyBody::Json(text) => BodyView::Json(text@),
            ReplyBody::Kept(bytes) => BodyView::Kept(bytes@),
        }
    }
}

impl<'a> View for Reply<'a> {
    type V = ReplyView;

    open spec fn view(&self) -> ReplyView {
        ReplyView {
            status: self.status,
            cache_control: opt_text(self.cache_control),
            etag: opt_text(self.etag),
            x_cache: opt_text(self.x_cache),
            x_cache_key: opt_text(self.x_cache_key),
            content_type: opt_text(self.content_type),
            body: self.body@,
        }
    }
}

/// The reply with JSON text and no headers but what caches may do with it.
pub open spec fn json_reply(
    status: u16,
    cache_control: Option<Seq<char>>,
    text: Seq<char>,
) -> ReplyView {
    ReplyView {
        status,
        cache_control,
        etag: None,
        x_cache: None,
        x_cache_key: None,
        content_type: None,
        body: BodyView::Json(text),
    }
}

/// The JSON object that tells what is wrong.
pub open spec fn error_json(message: Seq<char>) -> Seq<char> {
    json_object(seq![json_member("error"@, json_string(message))])
}

/// The reply with JSON text and no headers but what caches may do with it.
pub fn text_reply<'a>(status: u16, cache_control: Option<String>, text: String) -> (r: Reply<'a>)
    ensures
        r@ == json_reply(status, opt_text(cache_control), text@),
{
    Reply {
        status,
        cache_control,
        etag: None,
        x_cache: None,
        x_cache_key: None,
        content_type: None,
        body: ReplyBody::Json(text),
    }
}

/// The JSON object that tells what is wrong.
pub fn error_text(message: &str) -> (r: String)
    ensures
        r@ == error_json(message@),
{
    let mut members: Vec<String> = Vec::new();
    members.push(member_text("error", string_text(message).as_str()));
    assert(texts(members@) == seq![json_member("error"@, json_string(message@))]);
    object_text(&members)
}

/// Whether `s` can be sent as the value of a header: it holds no control character but tabs.
pub open spec fn is_header_text(s: Seq<char>) -> bool {
    forall|i: int| 0 <= i < s.len() ==> is_header_char(#[trigger] s[i])
}

/// Whether `c` may stand in the value of a header.
pub open spec fn is_header_char(c: char) -> bool {
    c as u32 == 9 || (c as u32 >= 32 && c as u32 != 127)
}

/// `s` where it can be sent as the value of a header.
pub open spec fn header_value(s: Seq<char>) -> Option<Seq<char>> {
    if is_header_text(s) {
        Some(s)
    } else {
        None
    }
}

/// `s` where it can be sent as the value of a header.
pub fn sendable(s: &str) -> (r: Option<String>)
    ensures
        opt_text(r) == header_value(s@),
{
    let chars = chars_of(s);
    for i in 0..chars.len()
        invariant
            chars@ == s@,
            forall|j: int| 0 <= j < i ==> is_header_char(#[trigger] s@[j]),
    {
        let n = chars[i] as u32;
        if !(n == 9 || (n >= 32 && n != 127)) {
            assert(!is_header_char(s@[i as int]));
            return None;
        }
    }
    Some(s.to_string())
}

/// What caches may do with an answer that stays fresh for `secs` seconds.
pub open spec fn cache_control(mode: CdnCacheMode, secs: nat) -> Seq<char> {
    match mode {
        CdnCacheMode::Public => "public, max-age="@ + decimal(secs) + ", stale-while-revalidate="@
            + decimal(secs) + ", stale-if-error=3600"@,
        CdnCacheMode::Private => "private, max-age="@ + decimal(secs),
        CdnCacheMode::Off => "no-store"@,
    }
}

/// What caches may do with an answer that stays fresh for `secs` seconds.
pub fn cache_control_text(mode: CdnCacheMode, secs: u64) -> (r: String)
    ensures
        r@ == cache_control(mode, secs as nat),
{
    match mode {
        CdnCacheMode::Public => {
            let mut text = "public, max-age=".to_string();
            text.append(decimal_text(secs).as_str());
            text.append(", stale-while-revalidate=");
            text.append(decimal_text(secs).as_str());
            text.append(", stale-if-error=3600");
            text
        },
        CdnCacheMode::Private => {
            let mut text = "private, max-age=".to_string();
            text.append(decimal_text(secs).as_str());
            text
        },
        CdnCacheMode::Off => "no-store".to_string(),
    }
}

/// The length of the label of a key, in bytes.
pub open spec fn label_len(key: Seq<char>) -> int {
    if encode_utf8(key).len() < 16 {
        encode_utf8(key).len() as int
    } else {
        16
    }
}

/// The label by which a key is shown: its first 16 bytes.
pub open spec fn key_label(key: Seq<char>) -> Seq<char> {
    decode_utf8(encode_utf8(key).subrange(0, label_len(key)))
}

/// Whether the label of a key ends between two characters.
pub open spec fn has_label(key: Seq<char>) -> bool {
    is_char_boundary(encode_utf8(key), label_len(key))
}

/// The label by which a key is shown: its first 16 bytes.
pub fn label_of(key: &str) -> (r: String)
    requires
        has_label(key@),
    ensures
        r@ == key_label(key@),
{
    let len: usize = key.as_bytes().len();
    let n: usize = if len < 16 {
        len
    } else {
        16
    };
    let (label, _) = key.split_at(n);
    proof {
        vstd::utf8::encode_utf8_decode_utf8(label@);
    }
    label.to_string()
}

/// The label of an ASCII key is made of its first 16 characters.
pub proof fn lemma_ascii_label(key: Seq<char>)
    requires
        is_ascii_chars(key),
    ensures
        has_label(key),
        key_label(key) == if key.len() < 16 {
            key
        } else {
            key.take(16)
        },
{
    let n: int = if key.len() < 16 {
        key.len() as int
    } else {
        16
    };
    let bytes = encode_utf8(key);
    let head = key.take(n);
    vstd::utf8::is_ascii_chars_encode_utf8(key);
    vstd::utf8::encode_utf8_valid_utf8(key);
    assert(is_ascii_chars(head)) by {
        assert forall|i: int| 0 <= i < head.len() implies '\0' <= #[trigger] head[i] <= '\u{7f}' by {
            assert(head[i] == key[i]);
        }
    }
    vstd::utf8::is_ascii_chars_encode_utf8(head);
    assert(bytes.subrange(0, n) == encode_utf8(head));
    vstd::utf8::encode_utf8_decode_utf8(head);
    if n < bytes.len() {
        vstd::utf8::is_char_boundary_iff_not_is_continuation_byte(bytes, n);
        vstd::utf8::utf8_byte_ranges_bitwise(bytes[n]);
    } else {
        vstd::utf8::is_char_boundary_start_end_of_seq(bytes);
        assert(head == key);
    }
}

/// Whether `tag` is one of those that `header` lists, with commas between them.
pub open spec fn lists_tag(header: Seq<char>, tag: Seq<char>) -> bool {
    exists|i: int| 0 <= i < pieces(header, ',').len() && trim(#[trigger] pieces(header, ',')[i]) == tag
}

/// Whether `tag` is one of those that `header` lists, with commas between them.
pub fn has_tag(header: &str, tag: &str) -> (r: bool)
    ensures
        r == lists_tag(header@, tag@),
{
    let list = split_on(header, ',');
    let wanted = chars_of(tag);
    let ghost all = pieces(header@, ',');
    for i in 0..list.len()
        invariant
            rows(list@) == all,
            all == pieces(header@, ','),
            wanted@ == tag@,
            forall|j: int| 0 <= j < i ==> trim(#[trigger] all[j]) != tag@,
    {
        let piece = trimmed(string_of(&list[i]).as_str());
        assert(all[i as int] == list@[i as int]@);
        if same_text(&piece, &wanted) {
            assert(trim(all[i as int]) == tag@);
            return true;
        }
    }
    false
}

/// A tag that a client lists is found, whatever other tags stand around it and whatever white space
/// stands around each.
pub proof fn law_listed_tag_is_found(listed: Seq<Seq<char>>, i: int, tag: Seq<char>)
    requires
        0 <= i < listed.len(),
        forall|j: int| 0 <= j < listed.len() ==> !(#[trigger] listed[j]).contains(','),
        trim(listed[i]) == tag,
    ensures
        lists_tag(crate::text::join(listed, seq![',']), tag),
{
    crate::text::law_pieces_of_join(listed, ',');
    assert(trim(pieces(crate::text::join(listed, seq![',']), ',')[i]) == tag);
}

/// A tag that none of the listed ones is, is not found.
pub proof fn law_other_tags_are_not_found(listed: Seq<Seq<char>>, tag: Seq<char>)
    requires
        listed.len() > 0,
        forall|j: int| 0 <= j < listed.len() ==> !(#[trigger] listed[j]).contains(','),
        forall|j: int| 0 <= j < listed.len() ==> trim(#[trigger] listed[j]) != tag,
    ensures
        !lists_tag(crate::text::join(listed, seq![',']), tag),
{
    crate::text::law_pieces_of_join(listed, ',');
}

proof fn lemma_decimal_is_header_text(n: nat)
    ensures
        is_header_text(decimal(n)),
    decreases n,
{
    if n >= 10 {
        lemma_decimal_is_header_text(n / 10);
    }
}

/// Shared caches are let to keep an answer in the public mode alone; in the private one it is for the
/// client, and where caching is off for nobody.
pub proof fn law_only_public_answers_are_shared(mode: CdnCacheMode, secs: nat)
    ensures
        "public"@.is_prefix_of(cache_control(mode, secs)) <==> mode == CdnCacheMode::Public,
        "private"@.is_prefix_of(cache_control(mode, secs)) <==> mode == CdnCacheMode::Private,
        cache_control(mode, secs) == "no-store"@ <==> mode == CdnCacheMode::Off,
{
    reveal_strlit("public");
    reveal_strlit("private");
    reveal_strlit("public, max-age=");
    reveal_strlit("private, max-age=");
    reveal_strlit("no-store");
    let text = cache_control(mode, secs);
    assert("public"@[1] == 'u' && "private"@[1] == 'r' && "no-store"@[1] == 'o');
    assert("no-store"@[0] == 'n');
    match mode {
        CdnCacheMode::Public => {
            assert(text.take(16) == "public, max-age="@);
            assert(text[0] == 'p' && text[1] == 'u');
            assert("public"@ == text.subrange(0, 6));
            assert("private"@.is_prefix_of(text) ==> text.subrange(0, 7)[1] == 'r');
        },
        CdnCacheMode::Private => {
            assert(text.take(17) == "private, max-age="@);
            assert(text[0] == 'p' && text[1] == 'r');
            assert("private"@ == text.subrange(0, 7));
            assert("public"@.is_prefix_of(text) ==> text.subrange(0, 6)[1] == 'u');
        },
        CdnCacheMode::Off => {
            assert("private"@.is_prefix_of(text) ==> text.subrange(0, 7)[1] == 'r');
            assert("public"@.is_prefix_of(text) ==> text.subrange(0, 6)[1] == 'u');
        },
    }
}

/// What caches may do with an answer can always be sent.
pub proof fn law_cache_control_is_sent(mode: CdnCacheMode, secs: nat)
    ensures
        header_value(cache_control(mode, secs)) == Some(cache_control(mode, secs)),
{
    lemma_decimal_is_header_text(secs);
    reveal_strlit("public, max-age=");
    reveal_strlit(", stale-while-revalidate=");
    reveal_strlit(", stale-if-error=3600");
    reveal_strlit("private, max-age=");
    reveal_strlit("no-store");
    assert(is_header_text("public, max-age="@));
    assert(is_header_text(", stale-while-revalidate="@));
    assert(is_header_text(", stale-if-error=3600"@));
    assert(is_header_text("private, max-age="@));
    assert(is_header_text("no-store"@));
}

} // verus!
