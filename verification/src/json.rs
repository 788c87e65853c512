//! JSON values as the library sees them.
//!
//! Documents are read by `serde_json`; what it hands back is copied, node
//! for node, into [`Json`], a plain tree that the rest of the library can
//! reason about. Numbers are never inspected, so they are carried through
//! as `serde_json::Number`.

use vstd::prelude::*;
use vstd::string::StringExecFns;

verus! {

/// `serde_json::Value`, the tree that `serde_json` builds when it reads a
/// document. Nothing is known of a value of this type but what
/// [`value_model`] names.
#[verifier::external_type_specification]
#[verifier::external_body]
pub struct ExValue(serde_json::Value);

/// `serde_json::Number`. The library never looks inside one.
#[verifier::external_type_specification]
#[verifier::external_body]
pub struct ExNumber(serde_json::Number);

/// A JSON value.
///
/// An object keeps its members in a list; looking a key up finds the first
/// member with that key.
#[derive(Debug, PartialEq)]
pub enum Json {
    Null,
    Bool(bool),
    Number(serde_json::Number),
    Str(String),
    Array(Vec<Json>),
    Object(Vec<Member>),
}

/// One member of an object: a key and the value under it.
#[derive(Debug, PartialEq)]
pub struct Member {
    pub key: String,
    pub value: Json,
}

/// The mathematical model of a [`Json`] value.
pub enum JsonView {
    Null,
    Bool(bool),
    Number(serde_json::Number),
    Str(Seq<char>),
    Array(Seq<JsonView>),
    Object(Seq<(Seq<char>, JsonView)>),
}

impl View for Json {
    type V = JsonView;

    open spec fn view(&self) -> JsonView {
        model(*self)
    }
}

/// The model of a value.
pub open spec fn model(j: Json) -> JsonView
    decreases j,
{
    match j {
        Json::Null => JsonView::Null,
        Json::Bool(b) => JsonView::Bool(b),
        Json::Number(n) => JsonView::Number(n),
        Json::Str(s) => JsonView::Str(s@),
        Json::Array(items) => JsonView::Array(views(items@)),
        Json::Object(members) => JsonView::Object(member_views(members@)),
    }
}

/// The models of a list of values, element by element.
pub open spec fn views(items: Seq<Json>) -> Seq<JsonView>
    decreases items,
{
    if items.len() == 0 {
        Seq::empty()
    } else {
        views(items.drop_last()).push(model(items.last()))
    }
}

/// The models of an object's members, member by member.
pub open spec fn member_views(members: Seq<Member>) -> Seq<(Seq<char>, JsonView)>
    decreases members,
{
    if members.len() == 0 {
        Seq::empty()
    } else {
        member_views(members.drop_last()).push((members.last().key@, model(members.last().value)))
    }
}

/// `views` keeps the length and works element by element.
pub proof fn lemma_views(items: Seq<Json>)
    ensures
        views(items).len() == items.len(),
        forall|i: int| 0 <= i < items.len() ==> #[trigger] views(items)[i] == items[i]@,
    decreases items.len(),
{
    if items.len() > 0 {
        lemma_views(items.drop_last());
    }
}

/// `member_views` keeps the length and works member by member.
pub proof fn lemma_member_views(members: Seq<Member>)
    ensures
        member_views(members).len() == members.len(),
        forall|i: int|
            0 <= i < members.len() ==> #[trigger] member_views(members)[i] == (
                members[i].key@,
                members[i].value@,
            ),
    decreases members.len(),
{
    if members.len() > 0 {
        lemma_member_views(members.drop_last());
    }
}

/// The first member of `members` whose key is `key`, if there is one.
pub open spec fn find_member(members: Seq<(Seq<char>, JsonView)>, key: Seq<char>) -> Option<
    JsonView,
>
    decreases members.len(),
{
    if members.len() == 0 {
        None
    } else if members[0].0 == key {
        Some(members[0].1)
    } else {
        find_member(members.drop_first(), key)
    }
}

impl JsonView {
    /// The member of an object under `key`; `None` for a missing key and for
    /// anything that is not an object.
    pub open spec fn get(self, key: Seq<char>) -> Option<JsonView> {
        match self {
            JsonView::Object(members) => find_member(members, key),
            _ => None,
        }
    }

    /// The text of a string value.
    pub open spec fn as_str(self) -> Option<Seq<char>> {
        match self {
            JsonView::Str(s) => Some(s),
            _ => None,
        }
    }

    /// The elements of an array value.
    pub open spec fn as_array(self) -> Option<Seq<JsonView>> {
        match self {
            JsonView::Array(items) => Some(items),
            _ => None,
        }
    }

    /// The element of an array at `i`; `Null` where there is none.
    pub open spec fn at(self, i: int) -> JsonView {
        match self {
            JsonView::Array(items) => if 0 <= i < items.len() {
                items[i]
            } else {
                JsonView::Null
            },
            _ => JsonView::Null,
        }
    }

    /// The object without members.
    pub open spec fn object() -> JsonView {
        JsonView::Object(Seq::empty())
    }

    /// An object with one more member, put last. Anything else is left as
    /// it is.
    pub open spec fn with(self, key: Seq<char>, value: JsonView) -> JsonView {
        match self {
            JsonView::Object(members) => JsonView::Object(members.push((key, value))),
            other => other,
        }
    }

    /// The text of the string element at `i`, or `default` where there is no
    /// such element or it is not a string.
    pub open spec fn text_at(self, i: int, default: Seq<char>) -> Seq<char> {
        match self.at(i) {
            JsonView::Str(s) => s,
            _ => default,
        }
    }

    /// The text of the string member under `key`, or `default` where the
    /// member is missing or not a string.
    pub open spec fn str_or(self, key: Seq<char>, default: Seq<char>) -> Seq<char> {
        match self.get(key) {
            Some(JsonView::Str(s)) => s,
            _ => default,
        }
    }
}

impl Json {
    /// A string value.
    pub fn text(s: &str) -> (j: Json)
        ensures
            j@ == JsonView::Str(s@),
    {
        Json::Str(String::from_str(s))
    }

    /// The object without members.
    pub fn object() -> (j: Json)
        ensures
            j@ == JsonView::object(),
    {
        Json::Object(Vec::new())
    }

    /// Puts one more member at the end of an object.
    pub fn with(self, key: &str, value: Json) -> (j: Json)
        ensures
            j@ == self@.with(key@, value@),
    {
        match self {
            Json::Object(members) => {
                let mut members = members;
                let ghost before = members@;
                let member = Member { key: String::from_str(key), value };
                members.push(member);
                proof {
                    assert(members@.drop_last() =~= before);
                }
                Json::Object(members)
            },
            other => other,
        }
    }

    /// An array of one element.
    pub fn single(a: Json) -> (j: Json)
        ensures
            j@ == JsonView::Array(seq![a@]),
    {
        let mut items: Vec<Json> = Vec::new();
        items.push(a);
        proof {
            lemma_views(items@);
            assert(views(items@) =~= seq![a@]);
        }
        Json::Array(items)
    }

    /// An array of two elements.
    pub fn pair(a: Json, b: Json) -> (j: Json)
        ensures
            j@ == JsonView::Array(seq![a@, b@]),
    {
        let mut items: Vec<Json> = Vec::new();
        items.push(a);
        items.push(b);
        proof {
            lemma_views(items@);
            assert(views(items@) =~= seq![a@, b@]);
        }
        Json::Array(items)
    }

    /// The position of the first member under `key`.
    fn position(members: &Vec<Member>, key: &str) -> (r: Option<usize>)
        ensures
            match r {
                Some(i) => i < members.len() && find_member(member_views(members@), key@) == Some(
                    members@[i as int].value@,
                ),
                None => find_member(member_views(members@), key@) is None,
            },
    {
        let ghost ms = member_views(members@);
        proof {
            lemma_member_views(members@);
            assert(ms.skip(0) =~= ms);
        }
        let mut i: usize = 0;
        while i < members.len()
            invariant
                i <= members.len(),
                ms == member_views(members@),
                ms.len() == members.len(),
                forall|k: int|
                    0 <= k < ms.len() ==> #[trigger] ms[k] == (
                        members@[k].key@,
                        members@[k].value@,
                    ),
                find_member(ms, key@) == find_member(ms.skip(i as int), key@),
            decreases members.len() - i,
        {
            proof {
                let rest = ms.skip(i as int);
                assert(rest.len() > 0);
                assert(rest[0] == ms[i as int]);
                assert(rest.drop_first() =~= ms.skip(i as int + 1));
            }
            if members[i].key.as_str().eq(key) {
                return Some(i);
            }
            i += 1;
        }
        None
    }

    /// Looks a key up in an object.
    pub fn get(&self, key: &str) -> (r: Option<&Json>)
        ensures
            match r {
                Some(j) => self@.get(key@) == Some(j@),
                None => self@.get(key@) is None,
            },
    {
        match self {
            Json::Object(members) => match Json::position(members, key) {
                Some(i) => Some(&members[i].value),
                None => None,
            },
            _ => None,
        }
    }

    /// Takes the member under `key` out of an object, giving the rest up.
    pub fn take(self, key: &str) -> (r: Option<Json>)
        ensures
            match r {
                Some(j) => self@.get(key@) == Some(j@),
                None => self@.get(key@) is None,
            },
    {
        match self {
            Json::Object(members) => {
                let mut members = members;
                match Json::position(&members, key) {
                    Some(i) => Some(members.remove(i).value),
                    None => None,
                }
            },
            _ => None,
        }
    }

    /// The text of the string member under `key`, or `default`.
    pub fn str_or<'a>(&'a self, key: &str, default: &'a str) -> (r: &'a str)
        ensures
            r@ == self@.str_or(key@, default@),
    {
        match self.get(key) {
            Some(Json::Str(s)) => s.as_str(),
            _ => default,
        }
    }

    /// The text of the string element at `i`, or `default`.
    pub fn text_at<'a>(&'a self, i: usize, default: &'a str) -> (r: &'a str)
        ensures
            r@ == self@.text_at(i as int, default@),
    {
        match self {
            Json::Array(items) => {
                proof {
                    lemma_views(items@);
                }
                if i < items.len() {
                    match &items[i] {
                        Json::Str(s) => s.as_str(),
                        _ => default,
                    }
                } else {
                    default
                }
            },
            _ => default,
        }
    }

    /// The text of a string value.
    pub fn as_str(&self) -> (r: Option<&str>)
        ensures
            match r {
                Some(s) => self@.as_str() == Some(s@),
                None => self@.as_str() is None,
            },
    {
        match self {
            Json::Str(s) => Some(s.as_str()),
            _ => None,
        }
    }

    /// The elements of an array value.
    pub fn as_array(&self) -> (r: Option<&Vec<Json>>)
        ensures
            match r {
                Some(items) => self@.as_array() == Some(views(items@)),
                None => self@.as_array() is None,
            },
    {
        match self {
            Json::Array(items) => Some(items),
            _ => None,
        }
    }
}

/// What a `serde_json::Value` holds, as a model: its variant, and below it
/// the strings, the array elements in order and the object members in the
/// order in which the value's map walks them.
pub uninterp spec fn value_model(v: serde_json::Value) -> JsonView;

/// What `serde_json::from_str` reads from a text as a `serde_json::Value`:
/// the model of the value, or `None` where the text is not one JSON document.
pub uninterp spec fn text_model(text: Seq<char>) -> Option<JsonView>;

/// Calls `serde_json::from_str` for a `serde_json::Value`. The result is a
/// function of the text alone: a value whose model is `text_model` of the
/// text, or nothing where `serde_json` reports an error.
#[verifier::external_body]
fn value_of_text(text: &str) -> (r: Option<serde_json::Value>)
    ensures
        match r {
            Some(v) => text_model(text@) == Some(value_model(v)),
            None => text_model(text@) is None,
        },
{
    serde_json::from_str::<serde_json::Value>(text).ok()
}

/// Copies a `serde_json::Value` into a [`Json`], variant by variant: the
/// result's model is what the value holds.
#[verifier::external_body]
fn json_of_value(v: &serde_json::Value) -> (j: Json)
    ensures
        j@ == value_model(*v),
{
    match v {
        serde_json::Value::Null => Json::Null,
        serde_json::Value::Bool(b) => Json::Bool(*b),
        serde_json::Value::Number(n) => Json::Number(n.clone()),
        serde_json::Value::String(s) => Json::Str(s.clone()),
        serde_json::Value::Array(a) => Json::Array(a.iter().map(json_of_value).collect()),
        serde_json::Value::Object(m) => Json::Object(
            m.iter().map(|(k, e)| Member { key: k.clone(), value: json_of_value(e) }).collect(),
        ),
    }
}

/// Reads one JSON document.
///
/// The result is exactly what `serde_json` reads from `text`; `None` where
/// `text` is not a JSON document.
pub fn parse_json(text: &str) -> (r: Option<Json>)
    ensures
        match r {
            Some(j) => text_model(text@) == Some(j@),
            None => text_model(text@) is None,
        },
{
    match value_of_text(text) {
        Some(v) => Some(json_of_value(&v)),
        None => None,
    }
}

} // verus!
