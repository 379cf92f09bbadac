//! What the subcommands print: lines for a person, documents for a script.

use vstd::prelude::*;

use crate::app::secrets::Expiry;
use crate::azure::acr::{pull_reference, pull_text, short_digest, short_text};
use crate::azure::json::{lemma_list, lemma_object, Json, JsonView};
use crate::azure::{
    views, Registry, RegistryView, Repository, RepositoryView, SecretRow, SecretRowView, Tag,
    TagView, Vault,
};
use crate::filter::pairs;
use crate::kube::said;
use crate::text::{chars_of, decimal, number};
use crate::timestamp::{age, age_cell, rfc3339_text, Timestamp};

verus! {

// ---------------------------------------------------------------------------
// Columns
// ---------------------------------------------------------------------------

pub open spec fn spaces(count: int) -> Seq<char> {
    Seq::new(
        if count > 0 {
            count as nat
        } else {
            0
        },
        |i: int| ' ',
    )
}

/// A text with spaces behind it, as wide as a column.
pub open spec fn filled(text: Seq<char>, width: int) -> Seq<char> {
    text + spaces(width - text.len())
}

/// A text with spaces in front of it, as wide as a column.
pub open spec fn pushed_right(text: Seq<char>, width: int) -> Seq<char> {
    spaces(width - text.len()) + text
}

fn blanks(count: usize) -> (r: String)
    ensures
        r@ == spaces(count as int),
{
    let mut out = String::new();
    let mut i: usize = 0;
    while i < count
        invariant
            i <= count,
            out@ == spaces(i as int),
        decreases count - i,
    {
        out.push(' ');
        i = i + 1;
        proof {
            assert(out@ =~= spaces(i as int));
        }
    }
    proof {
        assert(out@ =~= spaces(count as int));
    }
    out
}

fn left(text: &str, width: usize) -> (r: String)
    ensures
        r@ == filled(text@, width as int),
{
    let length: usize = chars_of(text).len();
    let mut out = text.to_owned();
    if width > length {
        out.push_str(blanks(width - length).as_str());
    } else {
        proof {
            assert(out@ =~= filled(text@, width as int));
        }
    }
    out
}

fn right(text: &str, width: usize) -> (r: String)
    ensures
        r@ == pushed_right(text@, width as int),
{
    let length: usize = chars_of(text).len();
    let mut out = blanks(width.saturating_sub(length));
    out.push_str(text);
    proof {
        assert(out@ =~= pushed_right(text@, width as int));
    }
    out
}

// ---------------------------------------------------------------------------
// Lines
// ---------------------------------------------------------------------------

/// One secret's line: the vault, the name, whether it is enabled, the table's
/// own Expires cell, and how long ago it was updated.
pub open spec fn secret_line(row: SecretRowView, now: Timestamp) -> Seq<char> {
    filled(row.vault, 16) + " "@ + filled(row.name, 40) + " "@ + filled(
        if row.enabled {
            "enabled"@
        } else {
            "disabled"@
        },
        8,
    ) + " "@ + filled(Expiry::reads(row.expires, now).cell_text(row.expires, now), 10) + " "@
        + age_cell(row.updated, now) + "\n"@
}

/// One repository's line.
pub open spec fn repository_line(row: RepositoryView, now: Timestamp) -> Seq<char> {
    filled(row.registry, 16) + " "@ + filled(row.name, 40) + " "@ + pushed_right(
        match row.tag_count {
            Some(count) => decimal(count as nat),
            None => "—"@,
        },
        6,
    ) + " "@ + age_cell(row.updated, now) + "\n"@
}

/// One tag's line.
pub open spec fn tag_line(tag: TagView, now: Timestamp) -> Seq<char> {
    filled(tag.name, 30) + " "@ + filled(short_text(tag.digest), 20) + " "@ + age_cell(
        tag.updated,
        now,
    ) + "\n"@
}

pub open spec fn secret_lines(rows: Seq<SecretRowView>, now: Timestamp) -> Seq<char>
    decreases rows.len(),
{
    if rows.len() == 0 {
        Seq::empty()
    } else {
        secret_lines(rows.drop_last(), now) + secret_line(rows.last(), now)
    }
}

pub open spec fn repository_lines(rows: Seq<RepositoryView>, now: Timestamp) -> Seq<char>
    decreases rows.len(),
{
    if rows.len() == 0 {
        Seq::empty()
    } else {
        repository_lines(rows.drop_last(), now) + repository_line(rows.last(), now)
    }
}

pub open spec fn tag_lines(tags: Seq<TagView>, now: Timestamp) -> Seq<char>
    decreases tags.len(),
{
    if tags.len() == 0 {
        Seq::empty()
    } else {
        tag_lines(tags.drop_last(), now) + tag_line(tags.last(), now)
    }
}

fn push_secret(out: &mut String, row: &SecretRow, now: Timestamp)
    ensures
        final(out)@ == old(out)@ + secret_line(row@, now),
{
    let ghost was = out@;
    out.push_str(left(row.vault.as_str(), 16).as_str());
    out.push_str(" ");
    out.push_str(left(row.name.as_str(), 40).as_str());
    out.push_str(" ");
    out.push_str(
        left(
            if row.enabled {
                "enabled"
            } else {
                "disabled"
            },
            8,
        ).as_str(),
    );
    out.push_str(" ");
    // The table's own Expires cell: `expired`, or the age and a mark inside
    // the window. An age alone loses which side of now it is on.
    out.push_str(
        left(Expiry::of(row.expires, now).cell(row.expires, now).as_str(), 10).as_str(),
    );
    out.push_str(" ");
    out.push_str(age(row.updated, now).as_str());
    out.push_str("\n");
    proof {
        assert(out@ =~= was + secret_line(row@, now));
    }
}

fn push_repository(out: &mut String, row: &Repository, now: Timestamp)
    ensures
        final(out)@ == old(out)@ + repository_line(row@, now),
{
    let ghost was = out@;
    out.push_str(left(row.registry.as_str(), 16).as_str());
    out.push_str(" ");
    out.push_str(left(row.name.as_str(), 40).as_str());
    out.push_str(" ");
    let count = match row.tag_count {
        Some(count) => number(count),
        None => "—".to_owned(),
    };
    out.push_str(right(count.as_str(), 6).as_str());
    out.push_str(" ");
    out.push_str(age(row.updated, now).as_str());
    out.push_str("\n");
    proof {
        assert(out@ =~= was + repository_line(row@, now));
    }
}

fn push_tag(out: &mut String, tag: &Tag, now: Timestamp)
    ensures
        final(out)@ == old(out)@ + tag_line(tag@, now),
{
    let ghost was = out@;
    out.push_str(left(tag.name.as_str(), 30).as_str());
    out.push_str(" ");
    out.push_str(left(short_digest(tag.digest.as_str()).as_str(), 20).as_str());
    out.push_str(" ");
    out.push_str(age(tag.updated, now).as_str());
    out.push_str("\n");
    proof {
        assert(out@ =~= was + tag_line(tag@, now));
    }
}

/// A line for each secret.
#[must_use]
pub fn print_secrets(rows: &Vec<SecretRow>, now: Timestamp) -> (r: String)
    ensures
        r@ == secret_lines(views(rows@), now),
{
    let ghost all = views(rows@);
    let mut out = String::new();
    let mut i: usize = 0;
    proof {
        assert(all.take(0) =~= Seq::<SecretRowView>::empty());
        assert(out@ =~= Seq::<char>::empty());
    }
    while i < rows.len()
        invariant
            i <= rows@.len(),
            all == views(rows@),
            out@ == secret_lines(all.take(i as int), now),
        decreases rows@.len() - i,
    {
        proof {
            assert(all.take(i + 1).drop_last() =~= all.take(i as int));
            assert(all.take(i + 1).last() == rows@[i as int]@);
        }
        push_secret(&mut out, &rows[i], now);
        i = i + 1;
    }
    proof {
        assert(all.take(all.len() as int) =~= all);
    }
    out
}

/// A line for each repository.
#[must_use]
pub fn print_repositories(rows: &Vec<Repository>, now: Timestamp) -> (r: String)
    ensures
        r@ == repository_lines(views(rows@), now),
{
    let ghost all = views(rows@);
    let mut out = String::new();
    let mut i: usize = 0;
    proof {
        assert(all.take(0) =~= Seq::<RepositoryView>::empty());
        assert(out@ =~= Seq::<char>::empty());
    }
    while i < rows.len()
        invariant
            i <= rows@.len(),
            all == views(rows@),
            out@ == repository_lines(all.take(i as int), now),
        decreases rows@.len() - i,
    {
        proof {
            assert(all.take(i + 1).drop_last() =~= all.take(i as int));
            assert(all.take(i + 1).last() == rows@[i as int]@);
        }
        push_repository(&mut out, &rows[i], now);
        i = i + 1;
    }
    proof {
        assert(all.take(all.len() as int) =~= all);
    }
    out
}

/// A line for each tag.
#[must_use]
pub fn print_tags(tags: &Vec<Tag>, now: Timestamp) -> (r: String)
    ensures
        r@ == tag_lines(views(tags@), now),
{
    let ghost all = views(tags@);
    let mut out = String::new();
    let mut i: usize = 0;
    proof {
        assert(all.take(0) =~= Seq::<TagView>::empty());
        assert(out@ =~= Seq::<char>::empty());
    }
    while i < tags.len()
        invariant
            i <= tags@.len(),
            all == views(tags@),
            out@ == tag_lines(all.take(i as int), now),
        decreases tags@.len() - i,
    {
        proof {
            assert(all.take(i + 1).drop_last() =~= all.take(i as int));
            assert(all.take(i + 1).last() == tags@[i as int]@);
        }
        push_tag(&mut out, &tags[i], now);
        i = i + 1;
    }
    proof {
        assert(all.take(all.len() as int) =~= all);
    }
    out
}

// ---------------------------------------------------------------------------
// Documents
// ---------------------------------------------------------------------------

/// A text that may not be there.
pub open spec fn optional(text: Option<Seq<char>>) -> JsonView {
    match text {
        Some(text) => JsonView::Text(text),
        None => JsonView::Null,
    }
}

/// A moment that may not be set.
pub open spec fn stamped(stamp: Option<Timestamp>) -> JsonView {
    match stamp {
        Some(stamp) => optional(rfc3339_text(stamp.seconds)),
        None => JsonView::Null,
    }
}

/// A count that may not have arrived.
pub open spec fn counted(count: Option<u64>) -> JsonView {
    match count {
        Some(count) => JsonView::Number(Some(count as i128)),
        None => JsonView::Null,
    }
}

/// The tags of a secret, as an object.
pub open spec fn tags_document(tags: Seq<(Seq<char>, Seq<char>)>) -> JsonView {
    JsonView::Object(
        tags.map_values(|tag: (Seq<char>, Seq<char>)| (tag.0, JsonView::Text(tag.1))),
    )
}

/// One secret, for a script. A listing has no place for a value.
pub open spec fn secret_document(row: SecretRowView) -> JsonView {
    JsonView::Object(
        seq![
            ("vault"@, JsonView::Text(row.vault)),
            ("name"@, JsonView::Text(row.name)),
            ("enabled"@, JsonView::Bool(row.enabled)),
            ("content_type"@, optional(row.content_type)),
            ("expires"@, stamped(row.expires)),
            ("created"@, stamped(row.created)),
            ("updated"@, stamped(row.updated)),
            ("managed"@, JsonView::Bool(row.managed)),
            ("tags"@, tags_document(row.tags)),
        ],
    )
}

/// One repository, for a script.
pub open spec fn repository_document(row: RepositoryView) -> JsonView {
    JsonView::Object(
        seq![
            ("registry"@, JsonView::Text(row.registry)),
            ("repository"@, JsonView::Text(row.name)),
            ("tag_count"@, counted(row.tag_count)),
            ("manifest_count"@, counted(row.manifest_count)),
            ("created"@, stamped(row.created)),
            ("updated"@, stamped(row.updated)),
        ],
    )
}

/// One tag, for a script: with the whole digest, and the reference a script
/// feeds to `docker pull`.
pub open spec fn tag_document(registry: RegistryView, repo: Seq<char>, tag: TagView) -> JsonView {
    JsonView::Object(
        seq![
            ("registry"@, JsonView::Text(registry.name)),
            ("repository"@, JsonView::Text(repo)),
            ("tag"@, JsonView::Text(tag.name)),
            ("digest"@, JsonView::Text(tag.digest)),
            ("pull"@, JsonView::Text(pull_text(registry.login_server, repo, tag.name))),
            ("created"@, stamped(tag.created)),
            ("updated"@, stamped(tag.updated)),
        ],
    )
}

/// One value, for a script.
pub open spec fn value_document(
    vault: Seq<char>,
    name: Seq<char>,
    version: Seq<char>,
    content_type: Option<Seq<char>>,
    value: Seq<char>,
) -> JsonView {
    JsonView::Object(
        seq![
            ("vault"@, JsonView::Text(vault)),
            ("name"@, JsonView::Text(name)),
            ("version"@, JsonView::Text(version)),
            ("content_type"@, optional(content_type)),
            ("value"@, JsonView::Text(value)),
        ],
    )
}

pub open spec fn secrets_document(rows: Seq<SecretRowView>) -> JsonView {
    JsonView::List(rows.map_values(|row: SecretRowView| secret_document(row)))
}

pub open spec fn repositories_document(rows: Seq<RepositoryView>) -> JsonView {
    JsonView::List(rows.map_values(|row: RepositoryView| repository_document(row)))
}

pub open spec fn tags_listed_document(
    registry: RegistryView,
    repo: Seq<char>,
    tags: Seq<TagView>,
) -> JsonView {
    JsonView::List(tags.map_values(|tag: TagView| tag_document(registry, repo, tag)))
}

fn optional_text(text: &Option<String>) -> (r: Json)
    ensures
        r@ == optional(said(*text)),
{
    match text {
        Some(text) => Json::of_text(text.as_str()),
        None => Json::Null,
    }
}

fn stamp(moment: Option<Timestamp>) -> (r: Json)
    ensures
        r@ == stamped(moment),
{
    match moment {
        Some(moment) => optional_text(&moment.to_rfc3339()),
        None => Json::Null,
    }
}

fn count(held: Option<u64>) -> (r: Json)
    ensures
        r@ == counted(held),
{
    match held {
        Some(n) => Json::Number(Some(n as i128)),
        None => Json::Null,
    }
}

fn tags_object(tags: &Vec<(String, String)>) -> (r: Json)
    ensures
        r@ == tags_document(pairs(tags@)),
{
    let mut fields: Vec<(String, Json)> = Vec::new();
    let mut i: usize = 0;
    while i < tags.len()
        invariant
            i <= tags@.len(),
            fields@.len() == i,
            forall|k: int|
                0 <= k < i ==> (#[trigger] fields@[k]).0@ == tags@[k].0@ && fields@[k].1@
                    == JsonView::Text(tags@[k].1@),
        decreases tags@.len() - i,
    {
        fields.push((tags[i].0.clone(), Json::of_text(tags[i].1.as_str())));
        i = i + 1;
    }
    proof {
        lemma_object(fields);
        assert(Json::Object(fields)@.fields() =~= tags_document(pairs(tags@)).fields());
    }
    Json::Object(fields)
}

fn secret_object(row: &SecretRow) -> (r: Json)
    ensures
        r@ == secret_document(row@),
{
    let fields = vec![
        ("vault".to_owned(), Json::of_text(row.vault.as_str())),
        ("name".to_owned(), Json::of_text(row.name.as_str())),
        ("enabled".to_owned(), Json::Bool(row.enabled)),
        ("content_type".to_owned(), optional_text(&row.content_type)),
        ("expires".to_owned(), stamp(row.expires)),
        ("created".to_owned(), stamp(row.created)),
        ("updated".to_owned(), stamp(row.updated)),
        ("managed".to_owned(), Json::Bool(row.managed)),
        ("tags".to_owned(), tags_object(&row.tags)),
    ];
    proof {
        lemma_object(fields);
        assert(Json::Object(fields)@.fields() =~= secret_document(row@).fields());
    }
    Json::Object(fields)
}

fn repository_object(row: &Repository) -> (r: Json)
    ensures
        r@ == repository_document(row@),
{
    let fields = vec![
        ("registry".to_owned(), Json::of_text(row.registry.as_str())),
        ("repository".to_owned(), Json::of_text(row.name.as_str())),
        ("tag_count".to_owned(), count(row.tag_count)),
        ("manifest_count".to_owned(), count(row.manifest_count)),
        ("created".to_owned(), stamp(row.created)),
        ("updated".to_owned(), stamp(row.updated)),
    ];
    proof {
        lemma_object(fields);
        assert(Json::Object(fields)@.fields() =~= repository_document(row@).fields());
    }
    Json::Object(fields)
}

fn tag_object(registry: &Registry, repo: &str, tag: &Tag) -> (r: Json)
    ensures
        r@ == tag_document(registry@, repo@, tag@),
{
    let pull = pull_reference(registry.login_server.as_str(), repo, tag.name.as_str());
    let fields = vec![
        ("registry".to_owned(), Json::of_text(registry.name.as_str())),
        ("repository".to_owned(), Json::of_text(repo)),
        ("tag".to_owned(), Json::of_text(tag.name.as_str())),
        ("digest".to_owned(), Json::of_text(tag.digest.as_str())),
        ("pull".to_owned(), Json::of_text(pull.as_str())),
        ("created".to_owned(), stamp(tag.created)),
        ("updated".to_owned(), stamp(tag.updated)),
    ];
    proof {
        lemma_object(fields);
        assert(Json::Object(fields)@.fields() =~= tag_document(registry@, repo@, tag@).fields());
    }
    Json::Object(fields)
}

/// One value, with where it came from.
#[must_use]
pub fn describe_value(
    vault: &Vault,
    name: &str,
    version: &str,
    content_type: &Option<String>,
    value: &str,
) -> (r: Json)
    ensures
        r@ == value_document(vault.name@, name@, version@, said(*content_type), value@),
{
    let fields = vec![
        ("vault".to_owned(), Json::of_text(vault.name.as_str())),
        ("name".to_owned(), Json::of_text(name)),
        ("version".to_owned(), Json::of_text(version)),
        ("content_type".to_owned(), optional_text(content_type)),
        ("value".to_owned(), Json::of_text(value)),
    ];
    proof {
        lemma_object(fields);
        assert(Json::Object(fields)@.fields() =~= value_document(
            vault.name@,
            name@,
            version@,
            said(*content_type),
            value@,
        ).fields());
    }
    Json::Object(fields)
}

/// Each secret, for a script.
#[must_use]
pub fn describe_secrets(rows: &Vec<SecretRow>) -> (r: Json)
    ensures
        r@ == secrets_document(views(rows@)),
{
    let mut items: Vec<Json> = Vec::new();
    let mut i: usize = 0;
    while i < rows.len()
        invariant
            i <= rows@.len(),
            items@.len() == i,
            forall|k: int| 0 <= k < i ==> (#[trigger] items@[k])@ == secret_document(rows@[k]@),
        decreases rows@.len() - i,
    {
        items.push(secret_object(&rows[i]));
        i = i + 1;
    }
    proof {
        lemma_list(items);
        assert(Json::List(items)@.items() =~= secrets_document(views(rows@)).items());
    }
    Json::List(items)
}

/// Each repository, for a script.
#[must_use]
pub fn describe_repositories(rows: &Vec<Repository>) -> (r: Json)
    ensures
        r@ == repositories_document(views(rows@)),
{
    let mut items: Vec<Json> = Vec::new();
    let mut i: usize = 0;
    while i < rows.len()
        invariant
            i <= rows@.len(),
            items@.len() == i,
            forall|k: int| 0 <= k < i ==> (#[trigger] items@[k])@ == repository_document(rows@[k]@),
        decreases rows@.len() - i,
    {
        items.push(repository_object(&rows[i]));
        i = i + 1;
    }
    proof {
        lemma_list(items);
        assert(Json::List(items)@.items() =~= repositories_document(views(rows@)).items());
    }
    Json::List(items)
}

/// Each tag, for a script.
#[must_use]
pub fn describe_tags(registry: &Registry, repo: &str, tags: &Vec<Tag>) -> (r: Json)
    ensures
        r@ == tags_listed_document(registry@, repo@, views(tags@)),
{
    let mut items: Vec<Json> = Vec::new();
    let mut i: usize = 0;
    while i < tags.len()
        invariant
            i <= tags@.len(),
            items@.len() == i,
            forall|k: int|
                0 <= k < i ==> (#[trigger] items@[k])@ == tag_document(registry@, repo@, tags@[k]@),
        decreases tags@.len() - i,
    {
        items.push(tag_object(registry, repo, &tags[i]));
        i = i + 1;
    }
    proof {
        lemma_list(items);
        assert(Json::List(items)@.items() =~= tags_listed_document(
            registry@,
            repo@,
            views(tags@),
        ).items());
    }
    Json::List(items)
}

/// The document of a listing can never carry a value: it has no such field,
/// whatever the rows are.
pub proof fn law_a_listing_carries_no_value(rows: Seq<SecretRowView>, at: int)
    requires
        0 <= at < rows.len(),
    ensures
        secrets_document(rows).items()[at].member("value"@) == JsonView::Null,
{
    reveal_strlit("value");
    reveal_strlit("vault");
    reveal_strlit("name");
    reveal_strlit("enabled");
    reveal_strlit("content_type");
    reveal_strlit("expires");
    reveal_strlit("created");
    reveal_strlit("updated");
    reveal_strlit("managed");
    reveal_strlit("tags");
    let fields = secret_document(rows[at]).fields();
    assert("value"@[2] == 'l' && "vault"@[2] == 'u');
    assert forall|k: int| 0 <= k < fields.len() implies (#[trigger] fields[k]).0 != "value"@ by {
        assert("value"@.len() == 5);
        assert("value"@[0] == 'v');
    }
    crate::azure::json::lemma_no_field(fields, "value"@);
}

} // verus!
