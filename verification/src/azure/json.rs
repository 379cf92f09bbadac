//! A document as a service answers with one, and how a field is read out of
//! it.

use vstd::prelude::*;

use crate::kube::said;
use crate::text::{equal, trim, trimmed};

verus! {

/// `serde_json::Value`, a parsed document.
#[verifier::external_type_specification]
#[verifier::external_body]
pub struct ExValue(serde_json::Value);

/// The document that a text spells, as `serde_json::from_str` reads it, or what
/// the error it gives says where the text is not JSON.
pub uninterp spec fn json_of(text: Seq<char>) -> Result<JsonView, Seq<char>>;

/// What a parsed document holds.
pub uninterp spec fn tree_of(value: serde_json::Value) -> JsonView;

/// A document. A number is the whole number it spells, where it spells one
/// that fits 64 bits, signed or not.
#[derive(Debug, PartialEq, Eq)]
pub enum Json {
    Null,
    Bool(bool),
    Number(Option<i128>),
    Text(String),
    List(Vec<Json>),
    Object(Vec<(String, Json)>),
}

pub enum JsonView {
    Null,
    Bool(bool),
    Number(Option<i128>),
    Text(Seq<char>),
    List(Seq<JsonView>),
    Object(Seq<(Seq<char>, JsonView)>),
}

impl Json {
    pub open spec fn model(self) -> JsonView
        decreases self, 0nat,
    {
        match self {
            Json::Null => JsonView::Null,
            Json::Bool(value) => JsonView::Bool(value),
            Json::Number(value) => JsonView::Number(value),
            Json::Text(text) => JsonView::Text(text@),
            Json::List(items) => JsonView::List(list_model(items, items@.len())),
            Json::Object(fields) => JsonView::Object(object_model(fields, fields@.len())),
        }
    }
}

/// The first so many of the items.
pub open spec fn list_model(items: Vec<Json>, count: nat) -> Seq<JsonView>
    decreases items, count,
{
    if count == 0 || count > items@.len() {
        Seq::empty()
    } else {
        list_model(items, (count - 1) as nat).push(items[count - 1].model())
    }
}

/// The first so many of the fields.
pub open spec fn object_model(fields: Vec<(String, Json)>, count: nat) -> Seq<
    (Seq<char>, JsonView),
>
    decreases fields, count,
{
    if count == 0 || count > fields@.len() {
        Seq::empty()
    } else {
        object_model(fields, (count - 1) as nat).push(
            (fields[count - 1].0@, fields[count - 1].1.model()),
        )
    }
}

impl View for Json {
    type V = JsonView;

    open spec fn view(&self) -> JsonView {
        self.model()
    }
}

proof fn lemma_list_model(items: Vec<Json>, count: nat)
    requires
        count <= items@.len(),
    ensures
        list_model(items, count).len() == count,
        forall|i: int| 0 <= i < count ==> (#[trigger] list_model(items, count)[i]) == items@[i]@,
    decreases count,
{
    if count > 0 {
        lemma_list_model(items, (count - 1) as nat);
    }
}

proof fn lemma_object_model(fields: Vec<(String, Json)>, count: nat)
    requires
        count <= fields@.len(),
    ensures
        object_model(fields, count).len() == count,
        forall|i: int|
            0 <= i < count ==> (#[trigger] object_model(fields, count)[i]) == (
                fields@[i].0@,
                fields@[i].1@,
            ),
    decreases count,
{
    if count > 0 {
        lemma_object_model(fields, (count - 1) as nat);
    }
}

/// What a list document holds is what its items hold.
pub proof fn lemma_list(items: Vec<Json>)
    ensures
        Json::List(items)@.items().len() == items@.len(),
        forall|i: int|
            0 <= i < items@.len() ==> (#[trigger] Json::List(items)@.items()[i]) == items@[i]@,
{
    lemma_list_model(items, items@.len());
}

/// What an object document holds is what its fields hold.
pub proof fn lemma_object(fields: Vec<(String, Json)>)
    ensures
        Json::Object(fields)@.fields().len() == fields@.len(),
        forall|i: int|
            0 <= i < fields@.len() ==> (#[trigger] Json::Object(fields)@.fields()[i]) == (
                fields@[i].0@,
                fields@[i].1@,
            ),
{
    lemma_object_model(fields, fields@.len());
}

/// Where a field stands, or how many there are where it is not among them.
pub open spec fn field_at(fields: Seq<(Seq<char>, JsonView)>, key: Seq<char>) -> int
    decreases fields.len(),
{
    if fields.len() == 0 || fields[0].0 == key {
        0
    } else {
        1 + field_at(fields.skip(1), key)
    }
}

proof fn lemma_field_at(fields: Seq<(Seq<char>, JsonView)>, key: Seq<char>, i: int)
    requires
        0 <= i <= fields.len(),
        forall|k: int| 0 <= k < i ==> (#[trigger] fields[k]).0 != key,
        i < fields.len() ==> fields[i].0 == key,
    ensures
        field_at(fields, key) == i,
    decreases i,
{
    if i > 0 {
        assert(fields[0].0 != key);
        assert forall|k: int| 0 <= k < i - 1 implies (#[trigger] fields.skip(1)[k]).0 != key by {
            assert(fields.skip(1)[k] == fields[k + 1]);
        }
        lemma_field_at(fields.skip(1), key, i - 1);
    }
}

/// A key that no field has is not found.
pub proof fn lemma_no_field(fields: Seq<(Seq<char>, JsonView)>, key: Seq<char>)
    requires
        forall|k: int| 0 <= k < fields.len() ==> (#[trigger] fields[k]).0 != key,
    ensures
        field_at(fields, key) == fields.len(),
{
    lemma_field_at(fields, key, fields.len() as int);
}

impl JsonView {
    /// A field of an object, and nothing of anything else.
    pub open spec fn member(self, key: Seq<char>) -> JsonView {
        match self {
            JsonView::Object(fields) => if field_at(fields, key) < fields.len() {
                fields[field_at(fields, key)].1
            } else {
                JsonView::Null
            },
            _ => JsonView::Null,
        }
    }

    /// The first item of a list.
    pub open spec fn first(self) -> JsonView {
        match self {
            JsonView::List(items) => if items.len() > 0 {
                items[0]
            } else {
                JsonView::Null
            },
            _ => JsonView::Null,
        }
    }

    /// What a list holds; nothing where it is no list.
    pub open spec fn items(self) -> Seq<JsonView> {
        match self {
            JsonView::List(items) => items,
            _ => Seq::empty(),
        }
    }

    /// What an object holds; nothing where it is no object.
    pub open spec fn fields(self) -> Seq<(Seq<char>, JsonView)> {
        match self {
            JsonView::Object(fields) => fields,
            _ => Seq::empty(),
        }
    }

    pub open spec fn text(self) -> Option<Seq<char>> {
        match self {
            JsonView::Text(text) => Some(text),
            _ => None,
        }
    }

    /// A text that was actually there: trimmed, and blank counts as absent.
    pub open spec fn some_text(self) -> Option<Seq<char>> {
        match self {
            JsonView::Text(text) => if trimmed(text).len() > 0 {
                Some(trimmed(text))
            } else {
                None
            },
            _ => None,
        }
    }

    /// That text, or an empty one.
    pub open spec fn any_text(self) -> Seq<char> {
        match self.some_text() {
            Some(text) => text,
            None => Seq::empty(),
        }
    }

    pub open spec fn boolean(self) -> Option<bool> {
        match self {
            JsonView::Bool(value) => Some(value),
            _ => None,
        }
    }

    /// A whole number that fits 64 bits with a sign.
    pub open spec fn whole(self) -> Option<i64> {
        match self {
            JsonView::Number(Some(value)) => if i64::MIN <= value <= i64::MAX {
                Some(value as i64)
            } else {
                None
            },
            _ => None,
        }
    }

    /// A whole number that fits 64 bits without one.
    pub open spec fn natural(self) -> Option<u64> {
        match self {
            JsonView::Number(Some(value)) => if 0 <= value <= u64::MAX {
                Some(value as u64)
            } else {
                None
            },
            _ => None,
        }
    }
}

/// `serde_json::from_str::<serde_json::Value>`: what it reads holds the
/// document that the text spells, and its error says why there is none.
#[verifier::external_body]
fn read_value(text: &str) -> (r: Result<serde_json::Value, String>)
    ensures
        match r {
            Ok(value) => json_of(text@) == Ok::<JsonView, Seq<char>>(tree_of(value)),
            Err(message) => json_of(text@) == Err::<JsonView, Seq<char>>(message@),
        },
{
    serde_json::from_str(text).map_err(|error| error.to_string())
}

/// The variants and accessors of `serde_json::Value`, one for one: what it
/// holds, as a document. A number is what `Number::as_i64`, or else
/// `Number::as_u64`, gives for it.
#[verifier::external_body]
fn tree(value: serde_json::Value) -> (r: Json)
    ensures
        r@ == tree_of(value),
{
    match value {
        serde_json::Value::Null => Json::Null,
        serde_json::Value::Bool(held) => Json::Bool(held),
        serde_json::Value::Number(held) => {
            Json::Number(held.as_i64().map(i128::from).or(held.as_u64().map(i128::from)))
        },
        serde_json::Value::String(held) => Json::Text(held),
        serde_json::Value::Array(held) => Json::List(held.into_iter().map(tree).collect()),
        serde_json::Value::Object(held) => {
            Json::Object(held.into_iter().map(|(key, field)| (key, tree(field))).collect())
        },
    }
}

impl Json {
    /// The document a text spells, or why it spells none.
    pub fn parse(text: &str) -> (r: Result<Json, String>)
        ensures
            document_said(r) == json_of(text@),
    {
        match read_value(text) {
            Ok(value) => Ok(tree(value)),
            Err(message) => Err(message),
        }
    }

    /// A text, as a document.
    #[must_use]
    pub fn of_text(text: &str) -> (r: Json)
        ensures
            r@ == JsonView::Text(text@),
    {
        Json::Text(text.to_owned())
    }

    /// A field of an object.
    #[must_use]
    pub fn get(&self, key: &str) -> (r: Option<&Json>)
        ensures
            match r {
                Some(held) => held@ == self@.member(key@),
                None => self@.member(key@) == JsonView::Null,
            },
    {
        match self {
            Json::Object(fields) => {
                proof {
                    lemma_object_model(*fields, fields@.len());
                }
                let mut i: usize = 0;
                while i < fields.len() && !equal(fields[i].0.as_str(), key)
                    invariant
                        i <= fields@.len(),
                        self@.fields().len() == fields@.len(),
                        forall|k: int|
                            0 <= k < fields@.len() ==> (#[trigger] self@.fields()[k]) == (
                                fields@[k].0@,
                                fields@[k].1@,
                            ),
                        forall|k: int| 0 <= k < i ==> (#[trigger] self@.fields()[k]).0 != key@,
                    decreases fields@.len() - i,
                {
                    i = i + 1;
                }
                proof {
                    lemma_field_at(self@.fields(), key@, i as int);
                }
                if i < fields.len() {
                    Some(&fields[i].1)
                } else {
                    None
                }
            },
            _ => None,
        }
    }

    /// What a list holds.
    #[must_use]
    pub fn items(&self) -> (r: Option<&Vec<Json>>)
        ensures
            match r {
                Some(held) => held@.len() == self@.items().len() && forall|i: int|
                    0 <= i < held@.len() ==> (#[trigger] held@[i])@ == self@.items()[i],
                None => self@.items().len() == 0,
            },
    {
        match self {
            Json::List(items) => {
                proof {
                    lemma_list_model(*items, items@.len());
                    assert forall|i: int| 0 <= i < items@.len() implies (#[trigger] items@[i])@
                        == self@.items()[i] by {
                        assert(list_model(*items, items@.len())[i] == items@[i]@);
                    }
                }
                Some(items)
            },
            _ => None,
        }
    }

    /// What an object holds.
    #[must_use]
    pub fn fields(&self) -> (r: Option<&Vec<(String, Json)>>)
        ensures
            match r {
                Some(held) => held@.len() == self@.fields().len() && forall|i: int|
                    0 <= i < held@.len() ==> ((#[trigger] held@[i]).0@, held@[i].1@)
                        == self@.fields()[i],
                None => self@.fields().len() == 0,
            },
    {
        match self {
            Json::Object(fields) => {
                proof {
                    lemma_object_model(*fields, fields@.len());
                    assert forall|i: int| 0 <= i < fields@.len() implies (
                        (#[trigger] fields@[i]).0@,
                        fields@[i].1@,
                    ) == self@.fields()[i] by {
                        assert(object_model(*fields, fields@.len())[i] == (
                            fields@[i].0@,
                            fields@[i].1@,
                        ));
                    }
                }
                Some(fields)
            },
            _ => None,
        }
    }

    /// The same document again.
    #[must_use]
    #[verifier::loop_isolation(false)]
    pub fn copy(&self) -> (r: Json)
        ensures
            r@ == self@,
        decreases self,
    {
        match self {
            Json::Null => Json::Null,
            Json::Bool(held) => Json::Bool(*held),
            Json::Number(held) => Json::Number(*held),
            Json::Text(held) => Json::Text(held.clone()),
            Json::List(items) => {
                let mut out: Vec<Json> = Vec::new();
                let mut i: usize = 0;
                while i < items.len()
                    invariant
                        i <= items@.len(),
                        *self == Json::List(*items),
                        out@.len() == i,
                        forall|k: int| 0 <= k < i ==> (#[trigger] out@[k])@ == items@[k]@,
                    decreases items@.len() - i,
                {
                    proof {
                        assert(decreases_to!(*items => items[i as int]));
                    }
                    let item = items[i].copy();
                    out.push(item);
                    i = i + 1;
                }
                proof {
                    lemma_list_model(out, out@.len());
                    lemma_list_model(*items, items@.len());
                    assert(list_model(out, out@.len()) =~= list_model(*items, items@.len()));
                }
                Json::List(out)
            },
            Json::Object(fields) => {
                let mut out: Vec<(String, Json)> = Vec::new();
                let mut i: usize = 0;
                while i < fields.len()
                    invariant
                        i <= fields@.len(),
                        *self == Json::Object(*fields),
                        out@.len() == i,
                        forall|k: int|
                            0 <= k < i ==> (#[trigger] out@[k]).0@ == fields@[k].0@ && out@[k].1@
                                == fields@[k].1@,
                    decreases fields@.len() - i,
                {
                    proof {
                        assert(decreases_to!(*fields => fields[i as int]));
                    }
                    let field = fields[i].1.copy();
                    out.push((fields[i].0.clone(), field));
                    i = i + 1;
                }
                proof {
                    lemma_object_model(out, out@.len());
                    lemma_object_model(*fields, fields@.len());
                    assert(object_model(out, out@.len()) =~= object_model(*fields, fields@.len()));
                }
                Json::Object(out)
            },
        }
    }

    #[must_use]
    pub fn is_object(&self) -> (r: bool)
        ensures
            r == (self@ is Object),
    {
        match self {
            Json::Object(_) => true,
            _ => false,
        }
    }
}

/// What a document holds, or why there is none.
pub open spec fn document_said(document: Result<Json, String>) -> Result<JsonView, Seq<char>> {
    match document {
        Ok(document) => Ok(document@),
        Err(message) => Err(message@),
    }
}

/// What a field that may be missing holds.
pub open spec fn held(value: Option<&Json>) -> JsonView {
    match value {
        Some(value) => value@,
        None => JsonView::Null,
    }
}

/// A field of a field.
#[must_use]
pub fn field_of<'a>(value: Option<&'a Json>, key: &str) -> (r: Option<&'a Json>)
    ensures
        held(r) == held(value).member(key@),
{
    match value {
        Some(value) => value.get(key),
        None => None,
    }
}

/// The first item of a field.
#[must_use]
pub fn first_of(value: Option<&Json>) -> (r: Option<&Json>)
    ensures
        held(r) == held(value).first(),
{
    match value {
        Some(value) => match value.items() {
            Some(items) => if items.len() > 0 {
                Some(&items[0])
            } else {
                None
            },
            None => None,
        },
        None => None,
    }
}

/// A text, as it stands.
#[must_use]
pub fn as_str(value: Option<&Json>) -> (r: Option<&str>)
    ensures
        match r {
            Some(text) => held(value).text() == Some(text@),
            None => held(value).text() is None,
        },
{
    match value {
        Some(Json::Text(text)) => Some(text.as_str()),
        _ => None,
    }
}

/// One string that was actually there: trimmed, and blank counts as absent.
#[must_use]
pub fn text(value: Option<&Json>) -> (r: Option<String>)
    ensures
        said(r) == held(value).some_text(),
{
    match value {
        Some(Json::Text(held)) => {
            let trimmed = trim(held.as_str());
            if trimmed.as_str().is_empty() {
                None
            } else {
                Some(trimmed)
            }
        },
        _ => None,
    }
}

/// That string, or an empty one.
#[must_use]
pub fn string(value: Option<&Json>) -> (r: String)
    ensures
        r@ == held(value).any_text(),
{
    match text(value) {
        Some(held) => held,
        None => String::new(),
    }
}

#[must_use]
pub fn as_bool(value: Option<&Json>) -> (r: Option<bool>)
    ensures
        r == held(value).boolean(),
{
    match value {
        Some(Json::Bool(held)) => Some(*held),
        _ => None,
    }
}

#[must_use]
pub fn as_i64(value: Option<&Json>) -> (r: Option<i64>)
    ensures
        r == held(value).whole(),
{
    match value {
        Some(Json::Number(Some(held))) => if i64::MIN as i128 <= *held && *held
            <= i64::MAX as i128 {
            Some(*held as i64)
        } else {
            None
        },
        _ => None,
    }
}

#[must_use]
pub fn as_u64(value: Option<&Json>) -> (r: Option<u64>)
    ensures
        r == held(value).natural(),
{
    match value {
        Some(Json::Number(Some(held))) => if 0 <= *held && *held <= u64::MAX as i128 {
            Some(*held as u64)
        } else {
            None
        },
        _ => None,
    }
}

} // verus!
