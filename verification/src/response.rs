//! What of an upstream answer is shown to clients.

use vstd::prelude::*;
use vstd::string::StrSliceExecFns;
use vstd::utf8::encode_utf8;

use crate::json::{array_text, json_array, json_member, json_object, member_text, object_text};
use crate::text::texts;

verus! {

/// A JSON value, carried along as it is.
#[verifier::external_type_specification]
#[verifier::external_body]
pub struct ExValue(serde_json::Value);

/// A member of an upstream answer, as far as it is looked at: the values of an array, or another
/// value.
pub enum Member {
    Array(Vec<serde_json::Value>),
    Other(serde_json::Value),
}

/// An upstream answer, as far as it is looked at: the members of an object, or another value.
pub enum Document {
    Object(Vec<(String, Member)>),
    Other(serde_json::Value),
}

/// What is shown of an upstream answer.
pub struct Projection {
    pub results: Vec<serde_json::Value>,
    pub warnings: Vec<serde_json::Value>,
}

/// What a member holds.
#[verifier::ext_equal]
pub enum MemberView {
    Array(Seq<serde_json::Value>),
    Other(serde_json::Value),
}

/// What a document holds.
#[verifier::ext_equal]
pub enum DocumentView {
    Object(Seq<(Seq<char>, MemberView)>),
    Other(serde_json::Value),
}

/// What a projection holds.
#[verifier::ext_equal]
pub struct ProjectionView {
    pub results: Seq<serde_json::Value>,
    pub warnings: Seq<serde_json::Value>,
}

impl View for Member {
    type V = MemberView;

    open spec fn view(&self) -> MemberView {
        match self {
            Member::Array(items) => MemberView::Array(items@),
            Member::Other(v) => MemberView::Other(*v),
        }
    }
}

/// What the members hold.
pub open spec fn members_view(v: Seq<(String, Member)>) -> Seq<(Seq<char>, MemberView)> {
    v.map_values(|m: (String, Member)| (m.0@, m.1@))
}

impl View for Document {
    type V = DocumentView;

    open spec fn view(&self) -> DocumentView {
        match self {
            Document::Object(members) => DocumentView::Object(members_view(members@)),
            Document::Other(v) => DocumentView::Other(*v),
        }
    }
}

impl View for Projection {
    type V = ProjectionView;

    open spec fn view(&self) -> ProjectionView {
        ProjectionView { results: self.results@, warnings: self.warnings@ }
    }
}

/// The document that `serde_json::from_slice` reads from `raw`, or its words on why there is none.
pub uninterp spec fn json_document(raw: Seq<u8>) -> Result<DocumentView, Seq<char>>;

/// The text that `serde_json::to_string` writes for `v`.
pub uninterp spec fn json_value_text(v: serde_json::Value) -> Seq<char>;

/// `serde_json::from_slice` into a `Value`, which is taken apart one level into an object's
/// members, and two levels into the values of a member that is an array. What is read, and the
/// words where nothing can be read, depend on `raw` alone.
#[verifier::external_body]
fn parse_document(raw: &[u8]) -> (r: Result<Document, String>)
    ensures
        match r {
            Ok(d) => json_document(raw@) == Ok::<DocumentView, Seq<char>>(d@),
            Err(e) => json_document(raw@) == Err::<DocumentView, Seq<char>>(e@),
        },
{
    match serde_json::from_slice::<serde_json::Value>(raw) {
        Ok(serde_json::Value::Object(members)) => Ok(Document::Object(members.into_iter().map(
            |(name, value)| match value {
                serde_json::Value::Array(items) => (name, Member::Array(items)),
                other => (name, Member::Other(other)),
            },
        ).collect())),
        Ok(other) => Ok(Document::Other(other)),
        Err(e) => Err(e.to_string()),
    }
}

/// `serde_json::to_string` on a `Value`, whose text depends on the value alone. It cannot fail on a
/// `Value`.
#[verifier::external_body]
pub(crate) fn value_text(v: &serde_json::Value) -> (r: String)
    ensures
        r@ == json_value_text(*v),
{
    serde_json::to_string(v).expect("a JSON value is serializable")
}

/// The first member with the name `name`.
pub open spec fn member_named(
    members: Seq<(Seq<char>, MemberView)>,
    name: Seq<char>,
) -> Option<MemberView>
    decreases members.len(),
{
    if members.len() == 0 {
        None
    } else if members[0].0 == name {
        Some(members[0].1)
    } else {
        member_named(members.drop_first(), name)
    }
}

/// What is shown of a document: the values of `results`, none where that member is missing, and
/// those of `warnings` where that is an array. The document has to be an object, and `results` an
/// array.
pub open spec fn projected(d: DocumentView) -> Result<ProjectionView, Seq<char>> {
    match d {
        DocumentView::Other(_) => Err("invalid JSON from Parallel: expected object"@),
        DocumentView::Object(members) => {
            let warnings = match member_named(members, "warnings"@) {
                Some(MemberView::Array(items)) => items,
                _ => Seq::empty(),
            };
            match member_named(members, "results"@) {
                Some(MemberView::Array(items)) => Ok(ProjectionView { results: items, warnings }),
                Some(MemberView::Other(_)) => Err(
                    "invalid JSON from Parallel: results must be an array"@,
                ),
                None => Ok(ProjectionView { results: Seq::empty(), warnings }),
            }
        },
    }
}

/// The texts of JSON values.
pub open spec fn value_texts(s: Seq<serde_json::Value>) -> Seq<Seq<char>> {
    s.map_values(|v: serde_json::Value| json_value_text(v))
}

impl ProjectionView {
    /// The JSON object that clients see: the results, and the warnings where there are any.
    pub open spec fn json(self) -> Seq<char> {
        let results = json_member("results"@, json_array(value_texts(self.results)));
        let warnings = json_member("warnings"@, json_array(value_texts(self.warnings)));
        if self.warnings.len() == 0 {
            json_object(seq![results])
        } else {
            json_object(seq![results, warnings])
        }
    }
}

/// The bytes that clients see of the answer `raw`.
pub open spec fn projected_response(raw: Seq<u8>) -> Result<Seq<u8>, Seq<char>> {
    match json_document(raw) {
        Err(e) => Err("invalid JSON from Parallel: "@ + e),
        Ok(d) => match projected(d) {
            Ok(p) => Ok(encode_utf8(p.json())),
            Err(e) => Err(e),
        },
    }
}

/// What is shown of a document.
pub fn project_document(d: Document) -> (r: Result<Projection, String>)
    ensures
        match r {
            Ok(p) => projected(d@) == Ok::<ProjectionView, Seq<char>>(p@),
            Err(e) => projected(d@) == Err::<ProjectionView, Seq<char>>(e@),
        },
{
    let mut members = match d {
        Document::Other(_) => {
            return Err("invalid JSON from Parallel: expected object".to_string());
        },
        Document::Object(members) => members,
    };
    let ghost all = members_view(members@);
    let mut results: Option<Member> = None;
    let mut warnings: Option<Member> = None;
    proof {
        assert("results"@ != "warnings"@) by {
            reveal_strlit("results");
            reveal_strlit("warnings");
            assert("results"@[0] == 'r');
            assert("warnings"@[0] == 'w');
        }
        assert(all.skip(all.len() as int).len() == 0);
    }
    while members.len() > 0
        invariant
            "results"@ != "warnings"@,
            members@.len() <= all.len(),
            members_view(members@) == all.take(members@.len() as int),
            opt_member_view(results) == member_named(
                all.skip(members@.len() as int),
                "results"@,
            ),
            opt_member_view(warnings) == member_named(
                all.skip(members@.len() as int),
                "warnings"@,
            ),
        decreases members@.len(),
    {
        let ghost n = members@.len() as int;
        let ghost tail = all.skip(n - 1);
        assert(tail.drop_first() == all.skip(n));
        assert(tail[0] == members_view(members@)[n - 1]);
        let (name, member) = members.pop().unwrap();
        assert(tail[0] == (name@, member@));
        assert(members_view(members@) == all.take(n - 1));
        if name == "results".to_string() {
            results = Some(member);
        } else if name == "warnings".to_string() {
            warnings = Some(member);
        }
    }
    assert(all.skip(0) == all);
    let warnings: Vec<serde_json::Value> = match warnings {
        Some(Member::Array(items)) => items,
        _ => Vec::new(),
    };
    match results {
        Some(Member::Array(items)) => Ok(Projection { results: items, warnings }),
        Some(Member::Other(_)) => Err(
            "invalid JSON from Parallel: results must be an array".to_string(),
        ),
        None => Ok(Projection { results: Vec::new(), warnings }),
    }
}

/// What the member holds, where there is one.
pub open spec fn opt_member_view(o: Option<Member>) -> Option<MemberView> {
    match o {
        Some(m) => Some(m@),
        None => None,
    }
}

/// The JSON array of the values `v`.
fn values_text(v: &Vec<serde_json::Value>) -> (r: String)
    ensures
        r@ == json_array(value_texts(v@)),
{
    let mut items: Vec<String> = Vec::new();
    for i in 0..v.len()
        invariant
            texts(items@) == value_texts(v@.take(i as int)),
    {
        let ghost before = texts(items@);
        items.push(value_text(&v[i]));
        assert(texts(items@) == before.push(json_value_text(v@[i as int])));
        assert(v@.take(i + 1) == v@.take(i as int).push(v@[i as int]));
        assert(value_texts(v@.take(i + 1)) == value_texts(v@.take(i as int)).push(
            json_value_text(v@[i as int]),
        ));
    }
    assert(v@.take(v@.len() as int) == v@);
    array_text(&items)
}

impl Projection {
    /// The JSON object that clients see: the results, and the warnings where there are any.
    pub fn to_json(&self) -> (r: String)
        ensures
            r@ == self@.json(),
    {
        let mut members: Vec<String> = Vec::new();
        members.push(member_text("results", values_text(&self.results).as_str()));
        let ghost results = json_member("results"@, json_array(value_texts(self@.results)));
        assert(texts(members@) == seq![results]);
        if self.warnings.len() > 0 {
            members.push(member_text("warnings", values_text(&self.warnings).as_str()));
            let ghost warnings = json_member("warnings"@, json_array(value_texts(self@.warnings)));
            assert(texts(members@) == seq![results, warnings]);
        }
        object_text(&members)
    }
}

/// The public body of a search answer: `results`, and `warnings` where there are any. All else that
/// the upstream service says (ids, usage) is dropped.
pub fn project_search_response(raw: &[u8]) -> (r: Result<Vec<u8>, String>)
    ensures
        match r {
            Ok(bytes) => projected_response(raw@) == Ok::<Seq<u8>, Seq<char>>(bytes@),
            Err(e) => projected_response(raw@) == Err::<Seq<u8>, Seq<char>>(e@),
        },
{
    match parse_document(raw) {
        Err(e) => {
            let mut message = "invalid JSON from Parallel: ".to_string();
            message.append(e.as_str());
            Err(message)
        },
        Ok(d) => match project_document(d) {
            Ok(p) => Ok(p.to_json().as_str().as_bytes_vec()),
            Err(e) => Err(e),
        },
    }
}

/// A member under another name than `results` and `warnings` changes nothing that is shown.
pub proof fn law_other_members_are_dropped(
    members: Seq<(Seq<char>, MemberView)>,
    i: int,
    name: Seq<char>,
    value: MemberView,
)
    requires
        0 <= i <= members.len(),
        name != "results"@,
        name != "warnings"@,
    ensures
        projected(DocumentView::Object(members.insert(i, (name, value)))) == projected(
            DocumentView::Object(members),
        ),
{
    lemma_insert_other(members, i, name, value, "results"@);
    lemma_insert_other(members, i, name, value, "warnings"@);
}

proof fn lemma_insert_other(
    members: Seq<(Seq<char>, MemberView)>,
    i: int,
    name: Seq<char>,
    value: MemberView,
    sought: Seq<char>,
)
    requires
        0 <= i <= members.len(),
        name != sought,
    ensures
        member_named(members.insert(i, (name, value)), sought) == member_named(members, sought),
    decreases members.len(),
{
    let more = members.insert(i, (name, value));
    if i == 0 {
        assert(more.drop_first() == members);
    } else {
        assert(more[0] == members[0]);
        assert(more.drop_first() == members.drop_first().insert(i - 1, (name, value)));
        lemma_insert_other(members.drop_first(), i - 1, name, value, sought);
    }
}

} // verus!
