//! A document as it is written: the keys of an object in order, each once.

use vstd::prelude::*;

use super::json::{lemma_list, lemma_object, tree_of, Json, JsonView};

verus! {

/// Whether a text comes before another, letter by letter.
pub open spec fn sooner(a: Seq<char>, b: Seq<char>) -> bool
    decreases a.len(),
{
    if b.len() == 0 {
        false
    } else if a.len() == 0 {
        true
    } else if a[0] == b[0] {
        sooner(a.skip(1), b.skip(1))
    } else {
        a[0] < b[0]
    }
}

/// Fields in order with one more in its place, over one that has its key.
pub open spec fn put_field(
    fields: Seq<(Seq<char>, JsonView)>,
    key: Seq<char>,
    value: JsonView,
) -> Seq<(Seq<char>, JsonView)>
    decreases fields.len(),
{
    if fields.len() == 0 || sooner(key, fields[0].0) {
        seq![(key, value)] + fields
    } else if key == fields[0].0 {
        seq![(key, value)] + fields.skip(1)
    } else {
        seq![fields[0]] + put_field(fields.skip(1), key, value)
    }
}

/// The fields in the order of their keys; of two under one key, the later.
pub open spec fn keyed(fields: Seq<(Seq<char>, JsonView)>) -> Seq<(Seq<char>, JsonView)>
    decreases fields.len(),
{
    if fields.len() == 0 {
        Seq::empty()
    } else {
        put_field(keyed(fields.drop_last()), fields.last().0, fields.last().1)
    }
}

/// A number that a document can spell out.
pub open spec fn spells(n: i128) -> bool {
    i64::MIN <= n <= u64::MAX
}

/// A document as it is written. A number that is not a whole one of 64 bits is
/// written as nothing.
pub open spec fn written(document: JsonView) -> JsonView
    decreases document, 0nat,
{
    match document {
        JsonView::Number(n) => match n {
            Some(n) => if spells(n) {
                document
            } else {
                JsonView::Null
            },
            None => JsonView::Null,
        },
        JsonView::List(items) => JsonView::List(written_items(items, items.len())),
        JsonView::Object(fields) => JsonView::Object(keyed(written_fields(fields, fields.len()))),
        _ => document,
    }
}

/// The first so many of the items, as they are written.
pub open spec fn written_items(items: Seq<JsonView>, count: nat) -> Seq<JsonView>
    decreases items, count,
{
    if count == 0 || count > items.len() {
        Seq::empty()
    } else {
        written_items(items, (count - 1) as nat).push(written(items[count - 1]))
    }
}

/// The first so many of the fields, as they are written.
pub open spec fn written_fields(fields: Seq<(Seq<char>, JsonView)>, count: nat) -> Seq<
    (Seq<char>, JsonView),
>
    decreases fields, count,
{
    if count == 0 || count > fields.len() {
        Seq::empty()
    } else {
        written_fields(fields, (count - 1) as nat).push(
            (fields[count - 1].0, written(fields[count - 1].1)),
        )
    }
}

/// Whether every number in a document is a whole one.
pub open spec fn is_whole(document: JsonView) -> bool
    decreases document,
{
    match document {
        JsonView::Number(n) => n is Some,
        JsonView::List(items) => forall|i: int|
            0 <= i < items.len() ==> is_whole(#[trigger] items[i]),
        JsonView::Object(fields) => forall|i: int|
            0 <= i < fields.len() ==> is_whole((#[trigger] fields[i]).1),
        _ => true,
    }
}

/// Whether every field's numbers are whole ones.
pub open spec fn are_whole(fields: Seq<(Seq<char>, JsonView)>) -> bool {
    forall|i: int| 0 <= i < fields.len() ==> is_whole((#[trigger] fields[i]).1)
}

/// The parts that a document of `serde_json`'s is put together from.
enum Parts {
    Null,
    Bool(bool),
    Number(i128),
    Text(String),
    List(Vec<serde_json::Value>),
    Object(Vec<(String, serde_json::Value)>),
}

/// What each of some documents holds.
spec fn trees(items: Seq<serde_json::Value>) -> Seq<JsonView> {
    items.map_values(|item: serde_json::Value| tree_of(item))
}

spec fn field_trees(fields: Seq<(String, serde_json::Value)>) -> Seq<(Seq<char>, JsonView)> {
    fields.map_values(|field: (String, serde_json::Value)| (field.0@, tree_of(field.1)))
}

spec fn together(parts: Parts) -> JsonView {
    match parts {
        Parts::Null => JsonView::Null,
        Parts::Bool(held) => JsonView::Bool(held),
        Parts::Number(held) => JsonView::Number(Some(held)),
        Parts::Text(held) => JsonView::Text(held@),
        Parts::List(held) => JsonView::List(trees(held@)),
        Parts::Object(held) => JsonView::Object(keyed(field_trees(held@))),
    }
}

/// The variants of `serde_json::Value`, put together from their parts. A number
/// is what `Number::from_i128` makes of one of 64 bits, and holds it. An object
/// is a `serde_json::Map`, which is a `BTreeMap`: it holds its fields in the
/// order of their keys, and of two fields under one key the later.
#[verifier::external_body]
fn build(parts: Parts) -> (r: serde_json::Value)
    requires
        parts matches Parts::Number(n) ==> spells(n),
    ensures
        tree_of(r) == together(parts),
{
    match parts {
        Parts::Null => serde_json::Value::Null,
        Parts::Bool(held) => serde_json::Value::Bool(held),
        Parts::Number(held) => serde_json::Value::from(serde_json::Number::from_i128(held)),
        Parts::Text(held) => serde_json::Value::String(held),
        Parts::List(held) => serde_json::Value::Array(held),
        Parts::Object(held) => serde_json::Value::Object(held.into_iter().collect()),
    }
}

/// What `serde_json::to_string_pretty` makes of a document whose numbers are
/// all whole ones: the text, or what its error says.
pub uninterp spec fn pretty_text(document: JsonView) -> Result<Seq<char>, Seq<char>>;

/// What `Display` makes of a document whose numbers are all whole ones.
pub uninterp spec fn compact_text(document: JsonView) -> Seq<char>;

pub open spec fn text_said(text: Result<String, String>) -> Result<Seq<char>, Seq<char>> {
    match text {
        Ok(text) => Ok(text@),
        Err(message) => Err(message@),
    }
}

/// `serde_json::to_string_pretty`. What it writes of a `serde_json::Value` is
/// settled by what the value holds; a number that is not whole is not among
/// what is held, so nothing is said where there is one.
#[verifier::external_body]
fn pretty_of(value: &serde_json::Value) -> (r: Result<String, String>)
    ensures
        is_whole(tree_of(*value)) ==> text_said(r) == pretty_text(tree_of(*value)),
{
    serde_json::to_string_pretty(value).map_err(|error| error.to_string())
}

/// `serde_json::Value`'s `Display`, which is the document on one line. What it
/// writes is settled by what the value holds; a number that is not whole is not
/// among what is held, so nothing is said where there is one.
#[verifier::external_body]
fn compact_of(value: &serde_json::Value) -> (r: String)
    ensures
        is_whole(tree_of(*value)) ==> r@ == compact_text(tree_of(*value)),
{
    value.to_string()
}

proof fn lemma_written_items(items: Seq<JsonView>, count: nat)
    requires
        count <= items.len(),
    ensures
        written_items(items, count).len() == count,
        forall|i: int|
            0 <= i < count ==> (#[trigger] written_items(items, count)[i]) == written(items[i]),
    decreases count,
{
    if count > 0 {
        lemma_written_items(items, (count - 1) as nat);
    }
}

proof fn lemma_written_fields(fields: Seq<(Seq<char>, JsonView)>, count: nat)
    requires
        count <= fields.len(),
    ensures
        written_fields(fields, count).len() == count,
        forall|i: int|
            0 <= i < count ==> (#[trigger] written_fields(fields, count)[i]) == (
                fields[i].0,
                written(fields[i].1),
            ),
    decreases count,
{
    if count > 0 {
        lemma_written_fields(fields, (count - 1) as nat);
    }
}

proof fn lemma_put_whole(fields: Seq<(Seq<char>, JsonView)>, key: Seq<char>, value: JsonView)
    requires
        are_whole(fields),
        is_whole(value),
    ensures
        are_whole(put_field(fields, key, value)),
    decreases fields.len(),
{
    let then = put_field(fields, key, value);
    if fields.len() == 0 || sooner(key, fields[0].0) {
        assert forall|i: int| 0 <= i < then.len() implies is_whole((#[trigger] then[i]).1) by {
            if i > 0 {
                assert(then[i] == fields[i - 1]);
            }
        }
    } else if key == fields[0].0 {
        assert forall|i: int| 0 <= i < then.len() implies is_whole((#[trigger] then[i]).1) by {
            if i > 0 {
                assert(then[i] == fields[i]);
            }
        }
    } else {
        let rest = fields.skip(1);
        assert forall|i: int| 0 <= i < rest.len() implies is_whole((#[trigger] rest[i]).1) by {
            assert(rest[i] == fields[i + 1]);
        }
        lemma_put_whole(rest, key, value);
        let after = put_field(rest, key, value);
        assert forall|i: int| 0 <= i < then.len() implies is_whole((#[trigger] then[i]).1) by {
            if i > 0 {
                assert(then[i] == after[i - 1]);
            } else {
                assert(then[0] == fields[0]);
            }
        }
    }
}

proof fn lemma_keyed_whole(fields: Seq<(Seq<char>, JsonView)>)
    requires
        are_whole(fields),
    ensures
        are_whole(keyed(fields)),
    decreases fields.len(),
{
    if fields.len() > 0 {
        let before = fields.drop_last();
        assert forall|i: int| 0 <= i < before.len() implies is_whole((#[trigger] before[i]).1) by {
            assert(before[i] == fields[i]);
        }
        lemma_keyed_whole(before);
        lemma_put_whole(keyed(before), fields.last().0, fields.last().1);
    }
}

proof fn lemma_written_is_whole(document: JsonView)
    ensures
        is_whole(written(document)),
    decreases document,
{
    match document {
        JsonView::List(items) => {
            lemma_written_items(items, items.len());
            let all = written_items(items, items.len());
            assert forall|i: int| 0 <= i < all.len() implies is_whole(#[trigger] all[i]) by {
                lemma_written_is_whole(items[i]);
            }
        },
        JsonView::Object(fields) => {
            lemma_written_fields(fields, fields.len());
            let all = written_fields(fields, fields.len());
            assert forall|i: int| 0 <= i < all.len() implies is_whole((#[trigger] all[i]).1) by {
                lemma_written_is_whole(fields[i].1);
            }
            lemma_keyed_whole(all);
        },
        _ => {},
    }
}

impl Json {
    /// The document for `serde_json`.
    #[must_use]
    #[verifier::loop_isolation(false)]
    pub fn to_value(&self) -> (r: serde_json::Value)
        ensures
            tree_of(r) == written(self@),
        decreases self,
    {
        match self {
            Json::Null => build(Parts::Null),
            Json::Bool(held) => build(Parts::Bool(*held)),
            Json::Number(held) => match held {
                Some(n) => if -0x8000_0000_0000_0000i128 <= *n && *n
                    <= 0xffff_ffff_ffff_ffffi128 {
                    build(Parts::Number(*n))
                } else {
                    build(Parts::Null)
                },
                None => build(Parts::Null),
            },
            Json::Text(held) => build(Parts::Text(held.clone())),
            Json::List(items) => {
                let mut out: Vec<serde_json::Value> = Vec::new();
                let mut i: usize = 0;
                while i < items.len()
                    invariant
                        i <= items@.len(),
                        *self == Json::List(*items),
                        out@.len() == i,
                        forall|k: int|
                            0 <= k < i ==> tree_of(#[trigger] out@[k]) == written(items@[k]@),
                    decreases items@.len() - i,
                {
                    proof {
                        assert(decreases_to!(*items => items[i as int]));
                    }
                    let item = items[i].to_value();
                    out.push(item);
                    i = i + 1;
                }
                proof {
                    lemma_list(*items);
                    let all = self@.items();
                    lemma_written_items(all, all.len());
                    assert(trees(out@) =~= written_items(all, all.len()));
                }
                build(Parts::List(out))
            },
            Json::Object(fields) => {
                let mut out: Vec<(String, serde_json::Value)> = Vec::new();
                let mut i: usize = 0;
                while i < fields.len()
                    invariant
                        i <= fields@.len(),
                        *self == Json::Object(*fields),
                        out@.len() == i,
                        forall|k: int|
                            0 <= k < i ==> (#[trigger] out@[k]).0@ == fields@[k].0@ && tree_of(
                                out@[k].1,
                            ) == written(fields@[k].1@),
                    decreases fields@.len() - i,
                {
                    proof {
                        assert(decreases_to!(*fields => fields[i as int]));
                    }
                    let field = fields[i].1.to_value();
                    out.push((fields[i].0.clone(), field));
                    i = i + 1;
                }
                proof {
                    lemma_object(*fields);
                    let all = self@.fields();
                    lemma_written_fields(all, all.len());
                    assert(field_trees(out@) =~= written_fields(all, all.len()));
                }
                build(Parts::Object(out))
            },
        }
    }

    /// The document over lines, or why it cannot be written.
    pub fn pretty(&self) -> (r: Result<String, String>)
        ensures
            text_said(r) == pretty_text(written(self@)),
    {
        proof {
            lemma_written_is_whole(self@);
        }
        pretty_of(&self.to_value())
    }

    /// The document on one line.
    #[must_use]
    pub fn compact(&self) -> (r: String)
        ensures
            r@ == compact_text(written(self@)),
    {
        proof {
            lemma_written_is_whole(self@);
        }
        compact_of(&self.to_value())
    }
}

} // verus!
