//! The upstream search service: where it is asked, and which of its answers are taken.

use vstd::prelude::*;
use vstd::utf8::{decode_utf8, valid_utf8};

use crate::text::{chars_of, string_of};

verus! {

/// Why the upstream service gave no answer.
#[derive(Debug)]
pub enum ParallelError {
    /// It answered with this status and this text, or what it answered is described so.
    Upstream { status: u16, body: String },
    /// It could not be reached, for the reason in the text.
    Transport(String),
}

/// What an error holds.
#[verifier::ext_equal]
pub enum ErrorView {
    Upstream { status: u16, body: Seq<char> },
    Transport(Seq<char>),
}

impl View for ParallelError {
    type V = ErrorView;

    open spec fn view(&self) -> ErrorView {
        match self {
            ParallelError::Upstream { status, body } => ErrorView::Upstream {
                status: *status,
                body: body@,
            },
            ParallelError::Transport(reason) => ErrorView::Transport(reason@),
        }
    }
}

/// The text that `String::from_utf8_lossy` makes of `bytes`.
pub uninterp spec fn utf8_lossy(bytes: Seq<u8>) -> Seq<char>;

/// What `serde_json` finds wrong with `raw` as JSON text, when it only skips over the value.
pub uninterp spec fn json_fault(raw: Seq<u8>) -> Option<Seq<char>>;

/// `String::from_utf8_lossy`: the text, with replacement characters for what is no UTF-8. It
/// depends on the bytes alone, and is what UTF-8 says where they are UTF-8.
#[verifier::external_body]
fn lossy_text(bytes: &[u8]) -> (r: String)
    ensures
        r@ == utf8_lossy(bytes@),
        valid_utf8(bytes@) ==> r@ == decode_utf8(bytes@),
{
    String::from_utf8_lossy(bytes).into_owned()
}

/// `serde_json::from_slice` into `IgnoredAny`: whether `raw` is JSON text, and the words on what is
/// wrong where it is not. Both depend on `raw` alone.
#[verifier::external_body]
fn check_json(raw: &[u8]) -> (r: Result<(), String>)
    ensures
        match r {
            Ok(_) => json_fault(raw@) is None,
            Err(e) => json_fault(raw@) == Some(e@),
        },
{
    match serde_json::from_slice::<serde::de::IgnoredAny>(raw) {
        Ok(_) => Ok(()),
        Err(e) => Err(e.to_string()),
    }
}

/// The text of an error body: what UTF-8 says where the bytes are UTF-8, and otherwise what
/// `String::from_utf8_lossy` makes of them.
pub open spec fn error_body(body: Seq<u8>) -> Seq<char> {
    if valid_utf8(body) {
        decode_utf8(body)
    } else {
        utf8_lossy(body)
    }
}

/// Whether a status says that the request succeeded.
pub open spec fn is_success(status: u16) -> bool {
    200 <= status < 300
}

/// What is taken of the answer with this status and body, where `fault` says what is wrong with the
/// body as JSON text: the body as it is, or the error.
pub open spec fn accepted(status: u16, body: Seq<u8>, fault: Option<Seq<char>>) -> Result<
    Seq<u8>,
    ErrorView,
> {
    if !is_success(status) {
        Err(ErrorView::Upstream { status, body: error_body(body) })
    } else {
        match fault {
            Some(e) => Err(
                ErrorView::Upstream { status: 502, body: "invalid JSON from Parallel: "@ + e },
            ),
            None => Ok(body),
        }
    }
}

/// What the result of an upstream request holds.
pub open spec fn answer_view(r: Result<Vec<u8>, ParallelError>) -> Result<Seq<u8>, ErrorView> {
    match r {
        Ok(body) => Ok(body@),
        Err(e) => Err(e@),
    }
}

/// The bytes of an upstream answer as they are, so that they can be served without writing them
/// anew. A status other than success is an error, and so is a body that is no JSON text.
pub fn accept_response(status: u16, body: Vec<u8>) -> (r: Result<Vec<u8>, ParallelError>)
    ensures
        answer_view(r) == accepted(status, body@, json_fault(body@)),
{
    if status < 200 || status >= 300 {
        return accept_checked(status, body, None);
    }
    let fault = match check_json(body.as_slice()) {
        Ok(_) => None,
        Err(e) => Some(e),
    };
    accept_checked(status, body, fault)
}

/// The same where the body was looked at already, and `fault` says what is wrong with it.
pub fn accept_checked(status: u16, body: Vec<u8>, fault: Option<String>) -> (r: Result<
    Vec<u8>,
    ParallelError,
>)
    ensures
        answer_view(r) == accepted(status, body@, crate::text::opt_text(fault)),
{
    if status < 200 || status >= 300 {
        return Err(ParallelError::Upstream { status, body: lossy_text(body.as_slice()) });
    }
    match fault {
        Some(e) => {
            let mut message = "invalid JSON from Parallel: ".to_string();
            message.append(e.as_str());
            Err(ParallelError::Upstream { status: 502, body: message })
        },
        None => Ok(body),
    }
}

/// `s` without the slashes at its end.
pub open spec fn without_slashes(s: Seq<char>) -> Seq<char>
    decreases s.len(),
{
    if s.len() > 0 && s.last() == '/' {
        without_slashes(s.drop_last())
    } else {
        s
    }
}

/// `base_url` without the slashes at its end.
pub fn trim_base_url(base_url: &str) -> (r: String)
    ensures
        r@ == without_slashes(base_url@),
{
    let mut chars = chars_of(base_url);
    while chars.len() > 0 && chars[chars.len() - 1] == '/'
        invariant
            without_slashes(base_url@) == without_slashes(chars@),
        decreases chars@.len(),
    {
        chars.pop();
    }
    string_of(&chars)
}

/// Where searches are sent, for a service at `base_url`.
pub fn search_url(base_url: &str) -> (r: String)
    ensures
        r@ == base_url@ + "/v1/search"@,
{
    let mut url = base_url.to_string();
    url.append("/v1/search");
    url
}

} // verus!
