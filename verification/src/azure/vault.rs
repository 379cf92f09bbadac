//! The Key Vault data plane: list a vault's secrets, list one secret's
//! versions, and read one value when — and only when — someone asks for it in
//! as many words.
//!
//! Every call here carries the Vault audience's token and `api-version=7.4`,
//! and the base is the vault's `uri` from the inventory, which already ends in
//! a slash.

use std::cmp::Ordering;

use vstd::prelude::*;

use super::auth::{Audience, AudienceView, TokenSource};
use super::encode::{escaped, segment};
use super::failure::{api_error, CauseView, Failure, FailureView};
use super::graph::PAGES;
use super::json::{as_bool, as_i64, as_str, field_of, held, text, Json, JsonView};
use super::transport::{Client, ClientView, Clock, Request, RequestView, Transport};
use super::{
    views, Secret, SecretRow, SecretRowView, SecretVersion, Vault, VaultView, VersionView,
};
use crate::filter::pairs;
use crate::kube::said;
use crate::order::{compare_letters, order_by_letter};
use crate::text::{after_last, last_part, trim_trailing, without_trailing};
use crate::timestamp::{Timestamp, EARLIEST, LATEST};

verus! {

// ---------------------------------------------------------------------------
// Lists that are kept in order
// ---------------------------------------------------------------------------

/// A list with one more item: in front of those at its end that the item goes
/// ahead of.
pub open spec fn inserted<V>(list: Seq<V>, item: V, ahead: spec_fn(V, V) -> bool) -> Seq<V>
    decreases list.len(),
{
    if list.len() == 0 || !ahead(item, list.last()) {
        list.push(item)
    } else {
        inserted(list.drop_last(), item, ahead).push(list.last())
    }
}

/// A list in order, where two that are level stay as they came.
pub open spec fn ordered<V>(list: Seq<V>, ahead: spec_fn(V, V) -> bool) -> Seq<V>
    decreases list.len(),
{
    if list.len() == 0 {
        list
    } else {
        inserted(ordered(list.drop_last(), ahead), list.last(), ahead)
    }
}

proof fn lemma_inserted<V>(list: Seq<V>, item: V, ahead: spec_fn(V, V) -> bool, at: int)
    requires
        0 <= at <= list.len(),
        forall|k: int| at <= k < list.len() ==> ahead(item, #[trigger] list[k]),
        at > 0 ==> !ahead(item, list[at - 1]),
    ensures
        inserted(list, item, ahead) == list.insert(at, item),
    decreases list.len(),
{
    if list.len() == 0 || at == list.len() {
        assert(list.insert(at, item) =~= list.push(item));
    } else {
        assert(ahead(item, list[list.len() - 1]));
        lemma_inserted(list.drop_last(), item, ahead, at);
        assert(list.drop_last().insert(at, item).push(list.last()) =~= list.insert(at, item));
    }
}

/// Whether no item of a list goes ahead of one before it.
pub open spec fn is_ordered<V>(list: Seq<V>, ahead: spec_fn(V, V) -> bool) -> bool {
    forall|i: int, j: int|
        0 <= i < j < list.len() ==> !ahead(#[trigger] list[j], #[trigger] list[i])
}

/// A way of going ahead that orders: of two items one at most goes ahead of
/// the other, and what goes ahead of an item goes ahead of all that does not
/// go ahead of it.
pub open spec fn orders<V>(ahead: spec_fn(V, V) -> bool) -> bool {
    &&& forall|a: V, b: V| #[trigger] ahead(a, b) ==> !ahead(b, a)
    &&& forall|a: V, b: V, c: V|
        #[trigger] ahead(a, b) && !(#[trigger] ahead(c, b)) ==> ahead(a, c)
}

proof fn lemma_insertion_is_ordered<V>(list: Seq<V>, item: V, ahead: spec_fn(V, V) -> bool)
    requires
        orders(ahead),
        is_ordered(list, ahead),
    ensures
        is_ordered(inserted(list, item, ahead), ahead),
        inserted(list, item, ahead).len() == list.len() + 1,
        forall|k: int|
            0 <= k <= list.len() ==> (#[trigger] inserted(list, item, ahead)[k] == item
                || list.contains(inserted(list, item, ahead)[k])),
        inserted(list, item, ahead).to_multiset() == list.to_multiset().insert(item),
    decreases list.len(),
{
    broadcast use vstd::seq_lib::group_to_multiset_ensures;

    let then = inserted(list, item, ahead);
    if list.len() == 0 || !ahead(item, list.last()) {
        assert(then == list.push(item));
        assert forall|i: int, j: int| 0 <= i < j < then.len() implies !ahead(
            #[trigger] then[j],
            #[trigger] then[i],
        ) by {
            if j == list.len() && ahead(item, list[i]) {
                let last = list.last();
                if i < list.len() - 1 {
                    assert(!ahead(last, list[i]));
                }
                assert(ahead(item, last));
            }
        }
    } else {
        let rest = list.drop_last();
        let last = list.last();
        assert forall|i: int, j: int| 0 <= i < j < rest.len() implies !ahead(
            #[trigger] rest[j],
            #[trigger] rest[i],
        ) by {
            assert(rest[i] == list[i] && rest[j] == list[j]);
        }
        lemma_insertion_is_ordered(rest, item, ahead);
        let before = inserted(rest, item, ahead);
        assert(then == before.push(last));
        assert forall|k: int| 0 <= k <= list.len() implies (#[trigger] then[k] == item
            || list.contains(then[k])) by {
            if k < before.len() {
                assert(then[k] == before[k]);
                if before[k] != item {
                    let at = rest.index_of(before[k]);
                    assert(list[at] == before[k]);
                }
            } else {
                assert(list[list.len() - 1] == last);
            }
        }
        assert forall|i: int, j: int| 0 <= i < j < then.len() implies !ahead(
            #[trigger] then[j],
            #[trigger] then[i],
        ) by {
            if j == before.len() {
                if before[i] == item {
                    assert(!ahead(last, item));
                } else {
                    let at = rest.index_of(before[i]);
                    assert(list[at] == before[i]);
                    assert(!ahead(list[list.len() - 1], list[at]));
                }
            } else {
                assert(then[i] == before[i] && then[j] == before[j]);
            }
        }
        assert(list =~= rest.push(last));
        assert(then.to_multiset() =~= list.to_multiset().insert(item));
    }
}

/// An ordered list holds what it was made of, in order.
pub proof fn law_an_ordered_list_is_in_order<V>(list: Seq<V>, ahead: spec_fn(V, V) -> bool)
    requires
        orders(ahead),
    ensures
        is_ordered(ordered(list, ahead), ahead),
        ordered(list, ahead).to_multiset() == list.to_multiset(),
    decreases list.len(),
{
    broadcast use vstd::seq_lib::group_to_multiset_ensures;

    if list.len() > 0 {
        law_an_ordered_list_is_in_order(list.drop_last(), ahead);
        lemma_insertion_is_ordered(ordered(list.drop_last(), ahead), list.last(), ahead);
        assert(list =~= list.drop_last().push(list.last()));
    }
}

/// Whether a tag goes ahead of another: by its key, then by its value.
pub open spec fn tag_ahead(a: (Seq<char>, Seq<char>), b: (Seq<char>, Seq<char>)) -> bool {
    ||| order_by_letter(a.0, b.0) == Ordering::Less
    ||| order_by_letter(a.0, b.0) == Ordering::Equal && order_by_letter(a.1, b.1) == Ordering::Less
}

fn goes_ahead(a: &(String, String), b: &(String, String)) -> (r: bool)
    ensures
        r == tag_ahead((a.0@, a.1@), (b.0@, b.1@)),
{
    match compare_letters(a.0.as_str(), b.0.as_str()) {
        Ordering::Less => true,
        Ordering::Greater => false,
        Ordering::Equal => match compare_letters(a.1.as_str(), b.1.as_str()) {
            Ordering::Less => true,
            _ => false,
        },
    }
}

/// Whether a moment is later than another; any is later than none.
pub open spec fn later(a: Option<Timestamp>, b: Option<Timestamp>) -> bool {
    match (a, b) {
        (Some(a), Some(b)) => a.seconds > b.seconds,
        (Some(_), None) => true,
        (None, _) => false,
    }
}

fn is_later(a: Option<Timestamp>, b: Option<Timestamp>) -> (r: bool)
    ensures
        r == later(a, b),
{
    match (a, b) {
        (Some(a), Some(b)) => a.seconds > b.seconds,
        (Some(_), None) => true,
        (None, _) => false,
    }
}

/// Versions, the newest first.
pub open spec fn newest_first(list: Seq<VersionView>) -> Seq<VersionView> {
    ordered(list, |a: VersionView, b: VersionView| later(a.created, b.created))
}

/// The newest version comes first, an undated one last, and none is lost.
pub proof fn law_versions_come_newest_first(list: Seq<VersionView>)
    ensures
        forall|i: int, j: int|
            0 <= i < j < newest_first(list).len() ==> !later(
                (#[trigger] newest_first(list)[j]).created,
                (#[trigger] newest_first(list)[i]).created,
            ),
        newest_first(list).to_multiset() == list.to_multiset(),
{
    let ahead = |a: VersionView, b: VersionView| later(a.created, b.created);
    assert(orders(ahead));
    law_an_ordered_list_is_in_order(list, ahead);
    assert forall|i: int, j: int| 0 <= i < j < newest_first(list).len() implies !later(
        (#[trigger] newest_first(list)[j]).created,
        (#[trigger] newest_first(list)[i]).created,
    ) by {
        assert(!ahead(newest_first(list)[j], newest_first(list)[i]));
    }
}

// ---------------------------------------------------------------------------
// Rows
// ---------------------------------------------------------------------------

/// A moment written as the seconds since 1970, where the calendar reaches it.
pub open spec fn unix_in(value: JsonView) -> Option<Timestamp> {
    match value.whole() {
        Some(seconds) => if EARLIEST <= seconds <= LATEST {
            Some(Timestamp { seconds })
        } else {
            None
        },
        None => None,
    }
}

/// The tags of an entry, each a text or an empty one.
pub open spec fn tags_in(fields: Seq<(Seq<char>, JsonView)>) -> Seq<(Seq<char>, Seq<char>)> {
    fields.map_values(
        |field: (Seq<char>, JsonView)|
            (
                field.0,
                match field.1.text() {
                    Some(text) => text,
                    None => Seq::empty(),
                },
            ),
    )
}

pub open spec fn truth(value: JsonView, otherwise: bool) -> bool {
    match value.boolean() {
        Some(value) => value,
        None => otherwise,
    }
}

/// What an entry is called: the last part of its id, where it has one.
pub open spec fn entry_name(entry: JsonView) -> Option<Seq<char>> {
    match entry.member("id"@).some_text() {
        Some(id) => if after_last(id, '/').len() > 0 {
            Some(after_last(id, '/'))
        } else {
            None
        },
        None => None,
    }
}

/// The row an entry of a listing is. A vault says so only when a secret is
/// disabled, and a secret with no attributes at all is a usable one.
pub open spec fn row_in(vault: Seq<char>, entry: JsonView) -> Option<SecretRowView> {
    let attributes = entry.member("attributes"@);
    match entry_name(entry) {
        None => None,
        Some(name) => Some(
            SecretRowView {
                vault,
                name,
                enabled: truth(attributes.member("enabled"@), true),
                created: unix_in(attributes.member("created"@)),
                updated: unix_in(attributes.member("updated"@)),
                expires: unix_in(attributes.member("exp"@)),
                not_before: unix_in(attributes.member("nbf"@)),
                content_type: entry.member("contentType"@).some_text(),
                tags: ordered(
                    tags_in(entry.member("tags"@).fields()),
                    |a: (Seq<char>, Seq<char>), b: (Seq<char>, Seq<char>)| tag_ahead(a, b),
                ),
                managed: truth(entry.member("managed"@), false),
            },
        ),
    }
}

/// The version an entry of a listing is.
pub open spec fn version_in(entry: JsonView) -> Option<VersionView> {
    let attributes = entry.member("attributes"@);
    match entry_name(entry) {
        None => None,
        Some(version) => Some(
            VersionView {
                version,
                enabled: truth(attributes.member("enabled"@), true),
                created: unix_in(attributes.member("created"@)),
                updated: unix_in(attributes.member("updated"@)),
                expires: unix_in(attributes.member("exp"@)),
            },
        ),
    }
}

/// The rows among the entries of a page.
pub open spec fn rows_in(vault: Seq<char>, entries: Seq<JsonView>) -> Seq<SecretRowView>
    decreases entries.len(),
{
    if entries.len() == 0 {
        Seq::empty()
    } else {
        let before = rows_in(vault, entries.drop_last());
        match row_in(vault, entries.last()) {
            Some(row) => before.push(row),
            None => before,
        }
    }
}

/// The versions among the entries of a page.
pub open spec fn versions_in(entries: Seq<JsonView>) -> Seq<VersionView>
    decreases entries.len(),
{
    if entries.len() == 0 {
        Seq::empty()
    } else {
        let before = versions_in(entries.drop_last());
        match version_in(entries.last()) {
            Some(version) => before.push(version),
            None => before,
        }
    }
}

fn unix(value: Option<&Json>) -> (r: Option<Timestamp>)
    ensures
        r == unix_in(held(value)),
{
    match as_i64(value) {
        Some(seconds) => Timestamp::from_unix(seconds),
        None => None,
    }
}

fn is_true(value: Option<&Json>, otherwise: bool) -> (r: bool)
    ensures
        r == truth(held(value), otherwise),
{
    match as_bool(value) {
        Some(value) => value,
        None => otherwise,
    }
}

fn name_of(entry: &Json) -> (r: Option<String>)
    ensures
        said(r) == entry_name(entry@),
{
    match text(entry.get("id")) {
        Some(id) => {
            let name = last_part(id.as_str(), '/');
            if name.as_str().is_empty() {
                None
            } else {
                Some(name)
            }
        },
        None => None,
    }
}

fn insert_tag(tags: &mut Vec<(String, String)>, tag: (String, String))
    ensures
        pairs(final(tags)@) == inserted(
            pairs(old(tags)@),
            (tag.0@, tag.1@),
            |a: (Seq<char>, Seq<char>), b: (Seq<char>, Seq<char>)| tag_ahead(a, b),
        ),
{
    let ghost was = pairs(tags@);
    let ghost held = tags@;
    let ghost item = (tag.0@, tag.1@);
    let ghost ahead = |a: (Seq<char>, Seq<char>), b: (Seq<char>, Seq<char>)| tag_ahead(a, b);
    let mut at: usize = tags.len();
    while at > 0 && goes_ahead(&tag, &tags[at - 1])
        invariant
            at <= tags@.len(),
            was == pairs(tags@),
            held == tags@,
            item == (tag.0@, tag.1@),
            forall|k: int| at <= k < was.len() ==> tag_ahead(item, #[trigger] was[k]),
        decreases at,
    {
        at = at - 1;
    }
    tags.insert(at, tag);
    proof {
        lemma_inserted(was, item, ahead, at as int);
        assert(pairs(tags@) =~= was.insert(at as int, item));
    }
}

fn read_tags(value: Option<&Json>) -> (r: Vec<(String, String)>)
    ensures
        pairs(r@) == ordered(
            tags_in(held(value).fields()),
            |a: (Seq<char>, Seq<char>), b: (Seq<char>, Seq<char>)| tag_ahead(a, b),
        ),
{
    let ghost ahead = |a: (Seq<char>, Seq<char>), b: (Seq<char>, Seq<char>)| tag_ahead(a, b);
    let ghost all = tags_in(held(value).fields());
    let mut out: Vec<(String, String)> = Vec::new();
    proof {
        assert(pairs(out@) =~= Seq::<(Seq<char>, Seq<char>)>::empty());
        assert(all.take(0) =~= Seq::<(Seq<char>, Seq<char>)>::empty());
    }
    let fields = match value {
        Some(value) => value.fields(),
        None => None,
    };
    if let Some(fields) = fields {
        let mut i: usize = 0;
        while i < fields.len()
            invariant
                i <= fields@.len(),
                ahead == (|a: (Seq<char>, Seq<char>), b: (Seq<char>, Seq<char>)| tag_ahead(a, b)),
                all == tags_in(held(value).fields()),
                held(value).fields().len() == fields@.len(),
                forall|k: int|
                    0 <= k < fields@.len() ==> ((#[trigger] fields@[k]).0@, fields@[k].1@)
                        == held(value).fields()[k],
                pairs(out@) == ordered(all.take(i as int), ahead),
            decreases fields@.len() - i,
        {
            let mut said = String::new();
            if let Some(text) = as_str(Some(&fields[i].1)) {
                said = text.to_owned();
            }
            proof {
                assert(all.take(i + 1).drop_last() =~= all.take(i as int));
                assert((fields@[i as int].0@, fields@[i as int].1@) == held(value).fields()[i as int]);
                assert(said@ =~= all[i as int].1);
                assert(all.take(i + 1).last() == (fields@[i as int].0@, said@));
            }
            insert_tag(&mut out, (fields[i].0.clone(), said));
            i = i + 1;
        }
        proof {
            assert(all.take(all.len() as int) =~= all);
        }
    } else {
        proof {
            assert(all =~= Seq::<(Seq<char>, Seq<char>)>::empty());
        }
    }
    out
}

fn row(vault: &Vault, entry: &Json) -> (r: Option<SecretRow>)
    ensures
        match r {
            Some(row) => row_in(vault.name@, entry@) == Some(row@),
            None => row_in(vault.name@, entry@) is None,
        },
{
    let name = match name_of(entry) {
        Some(name) => name,
        None => return None,
    };
    let attributes = entry.get("attributes");
    Some(
        SecretRow {
            vault: vault.name.clone(),
            name,
            enabled: is_true(field_of(attributes, "enabled"), true),
            created: unix(field_of(attributes, "created")),
            updated: unix(field_of(attributes, "updated")),
            expires: unix(field_of(attributes, "exp")),
            not_before: unix(field_of(attributes, "nbf")),
            content_type: text(entry.get("contentType")),
            tags: read_tags(entry.get("tags")),
            managed: is_true(entry.get("managed"), false),
        },
    )
}

fn version(entry: &Json) -> (r: Option<SecretVersion>)
    ensures
        match r {
            Some(version) => version_in(entry@) == Some(version@),
            None => version_in(entry@) is None,
        },
{
    let version = match name_of(entry) {
        Some(version) => version,
        None => return None,
    };
    let attributes = entry.get("attributes");
    Some(
        SecretVersion {
            version,
            enabled: is_true(field_of(attributes, "enabled"), true),
            created: unix(field_of(attributes, "created")),
            updated: unix(field_of(attributes, "updated")),
            expires: unix(field_of(attributes, "exp")),
        },
    )
}

fn collect_rows(vault: &Vault, page: &Json, rows: &mut Vec<SecretRow>)
    ensures
        views(final(rows)@) == views(old(rows)@) + rows_in(
            vault.name@,
            page@.member("value"@).items(),
        ),
{
    let ghost was = views(rows@);
    let ghost entries = page@.member("value"@).items();
    let items = match page.get("value") {
        Some(value) => value.items(),
        None => None,
    };
    proof {
        assert(entries.take(0) =~= Seq::<JsonView>::empty());
        assert(was + rows_in(vault.name@, entries.take(0)) =~= was);
    }
    if let Some(items) = items {
        let mut i: usize = 0;
        while i < items.len()
            invariant
                i <= items@.len(),
                entries.len() == items@.len(),
                forall|k: int| 0 <= k < items@.len() ==> (#[trigger] items@[k])@ == entries[k],
                views(rows@) == was + rows_in(vault.name@, entries.take(i as int)),
            decreases items@.len() - i,
        {
            proof {
                assert(entries.take(i + 1).drop_last() =~= entries.take(i as int));
                assert(entries.take(i + 1).last() == items@[i as int]@);
            }
            if let Some(row) = row(vault, &items[i]) {
                let ghost before = rows@;
                let ghost said = row@;
                rows.push(row);
                proof {
                    assert(views(rows@) =~= views(before).push(said));
                    assert(views(rows@) =~= was + rows_in(vault.name@, entries.take(i + 1)));
                }
            }
            i = i + 1;
        }
        proof {
            assert(entries.take(entries.len() as int) =~= entries);
        }
    } else {
        proof {
            assert(entries =~= entries.take(0));
        }
    }
}

fn collect_versions(page: &Json, versions: &mut Vec<SecretVersion>)
    ensures
        views(final(versions)@) == views(old(versions)@) + versions_in(
            page@.member("value"@).items(),
        ),
{
    let ghost was = views(versions@);
    let ghost entries = page@.member("value"@).items();
    let items = match page.get("value") {
        Some(value) => value.items(),
        None => None,
    };
    proof {
        assert(entries.take(0) =~= Seq::<JsonView>::empty());
        assert(was + versions_in(entries.take(0)) =~= was);
    }
    if let Some(items) = items {
        let mut i: usize = 0;
        while i < items.len()
            invariant
                i <= items@.len(),
                entries.len() == items@.len(),
                forall|k: int| 0 <= k < items@.len() ==> (#[trigger] items@[k])@ == entries[k],
                views(versions@) == was + versions_in(entries.take(i as int)),
            decreases items@.len() - i,
        {
            proof {
                assert(entries.take(i + 1).drop_last() =~= entries.take(i as int));
                assert(entries.take(i + 1).last() == items@[i as int]@);
            }
            if let Some(version) = version(&items[i]) {
                let ghost before = versions@;
                let ghost said = version@;
                versions.push(version);
                proof {
                    assert(views(versions@) =~= views(before).push(said));
                    assert(views(versions@) =~= was + versions_in(entries.take(i + 1)));
                }
            }
            i = i + 1;
        }
        proof {
            assert(entries.take(entries.len() as int) =~= entries);
        }
    } else {
        proof {
            assert(entries =~= entries.take(0));
        }
    }
}

// ---------------------------------------------------------------------------
// Addresses and refusals
// ---------------------------------------------------------------------------

/// The vault's data-plane base, with exactly one trailing slash however the
/// inventory wrote it.
pub open spec fn base_of(uri: Seq<char>) -> Seq<char> {
    without_trailing(uri, '/') + "/"@
}

fn base(vault: &Vault) -> (r: String)
    ensures
        r@ == base_of(vault.uri@),
{
    let mut text = trim_trailing(vault.uri.as_str(), '/');
    text.push_str("/");
    text
}

/// The first page of a vault's secrets. The service hands out 25 at most: this
/// is its cap, and it is why a vault with 500 secrets is 20 round trips and why
/// the cache earns its keep.
pub open spec fn secrets_url(uri: Seq<char>) -> Seq<char> {
    base_of(uri) + "secrets?api-version=7.4&maxresults=25"@
}

/// The first page of a secret's versions.
pub open spec fn versions_url(uri: Seq<char>, name: Seq<char>) -> Seq<char> {
    base_of(uri) + "secrets/"@ + escaped(name) + "/versions?api-version=7.4&maxresults=25"@
}

/// Where a value is.
pub open spec fn value_url(uri: Seq<char>, name: Seq<char>, version: Option<Seq<char>>) -> Seq<
    char,
> {
    match version {
        Some(version) => base_of(uri) + "secrets/"@ + escaped(name) + "/"@ + escaped(version)
            + "?api-version=7.4"@,
        None => base_of(uri) + "secrets/"@ + escaped(name) + "?api-version=7.4"@,
    }
}

/// The two refusals common enough to be worth saying in fewer words than the
/// service does.
pub open spec fn refusal_in(vault: Seq<char>, failure: FailureView) -> FailureView {
    match failure.cause {
        CauseView::Api(refusal) => if refusal.status != 403 {
            failure
        } else if refusal.names("ForbiddenByFirewall"@) {
            FailureView::other(
                vault + ": blocked by the vault firewall (your IP is not allowed)"@,
            )
        } else {
            FailureView::other(
                vault
                    + ": no permission to read secrets (needs the Key Vault Secrets User role or a `list` access policy)"@,
            )
        },
        _ => failure,
    }
}

/// Everything but the two keeps the message Key Vault wrote, which is usually
/// a good one.
fn explain(vault: &Vault, error: Failure) -> (r: Failure)
    ensures
        r@ == refusal_in(vault.name@, error@),
{
    let (refused, firewall) = match api_error(&error) {
        Some(refusal) => (refusal.status == 403, refusal.has_code("ForbiddenByFirewall")),
        None => (false, false),
    };
    if !refused {
        return error;
    }
    let mut said = vault.name.clone();
    if firewall {
        said.push_str(": blocked by the vault firewall (your IP is not allowed)");
    } else {
        said.push_str(
            ": no permission to read secrets (needs the Key Vault Secrets User role or a `list` access policy)",
        );
    }
    Failure::other(said)
}

// ---------------------------------------------------------------------------
// The calls
// ---------------------------------------------------------------------------

/// What a listing of rows came to.
pub open spec fn listing_said<T: View>(result: Result<Vec<T>, Failure>) -> Result<
    Seq<T::V>,
    FailureView,
> {
    match result {
        Ok(rows) => Ok(views(rows@)),
        Err(failure) => Err(failure@),
    }
}

pub open spec fn endless() -> FailureView {
    FailureView::other("the listing never came to an end"@)
}

impl ClientView {
    /// A vault's secrets, read on from a page with those rows before it.
    pub open spec fn secrets_listed(
        self,
        vault: VaultView,
        url: Option<Seq<char>>,
        rows: Seq<SecretRowView>,
        left: nat,
    ) -> (Self, Result<Seq<SecretRowView>, FailureView>)
        decreases left,
    {
        match url {
            None => (self, Ok(rows)),
            Some(url) => if left == 0 {
                (self, Err(endless()))
            } else {
                let (then, answer) = self.called(AudienceView::Vault, RequestView::get(url));
                match answer {
                    Err(failure) => (then, Err(refusal_in(vault.name, failure))),
                    Ok(page) => then.secrets_listed(
                        vault,
                        page.member("nextLink"@).some_text(),
                        rows + rows_in(vault.name, page.member("value"@).items()),
                        (left - 1) as nat,
                    ),
                }
            },
        }
    }

    /// A secret's versions, read on from a page with those before it.
    pub open spec fn versions_listed(
        self,
        vault: VaultView,
        url: Option<Seq<char>>,
        versions: Seq<VersionView>,
        left: nat,
    ) -> (Self, Result<Seq<VersionView>, FailureView>)
        decreases left,
    {
        match url {
            None => (self, Ok(newest_first(versions))),
            Some(url) => if left == 0 {
                (self, Err(endless()))
            } else {
                let (then, answer) = self.called(AudienceView::Vault, RequestView::get(url));
                match answer {
                    Err(failure) => (then, Err(refusal_in(vault.name, failure))),
                    Ok(page) => then.versions_listed(
                        vault,
                        page.member("nextLink"@).some_text(),
                        versions + versions_in(page.member("value"@).items()),
                        (left - 1) as nat,
                    ),
                }
            },
        }
    }

    /// One value, and the version it came from.
    pub open spec fn value_read(
        self,
        vault: VaultView,
        name: Seq<char>,
        version: Option<Seq<char>>,
    ) -> (Self, Result<(Seq<char>, Seq<char>), FailureView>) {
        let (then, answer) = self.called(
            AudienceView::Vault,
            RequestView::get(value_url(vault.uri, name, version)),
        );
        (
            then,
            match answer {
                Err(failure) => Err(refusal_in(vault.name, failure)),
                Ok(answer) => value_in(vault.name, name, answer),
            },
        )
    }
}

/// The value an answer holds, and the version it came from: the last part of
/// the id, which is what "current" means when none was asked for.
pub open spec fn value_in(vault: Seq<char>, name: Seq<char>, answer: JsonView) -> Result<
    (Seq<char>, Seq<char>),
    FailureView,
> {
    match answer.member("value"@).text() {
        None => Err(FailureView::other(vault + " did not answer with a value for "@ + name)),
        Some(value) => Ok(
            (
                value,
                match answer.member("id"@).some_text() {
                    Some(id) => after_last(id, '/'),
                    None => Seq::empty(),
                },
            ),
        ),
    }
}

/// What a read of a value came to.
pub open spec fn value_said(result: Result<(Secret, String), Failure>) -> Result<
    (Seq<char>, Seq<char>),
    FailureView,
> {
    match result {
        Ok((secret, version)) => Ok((secret@, version@)),
        Err(failure) => Err(failure@),
    }
}

/// Every secret in one vault, with the attributes the table shows. The value
/// is never among them.
pub fn secrets<T: TokenSource, H: Transport, C: Clock>(
    client: &mut Client<T, H, C>,
    vault: &Vault,
) -> (r: Result<Vec<SecretRow>, Failure>)
    ensures
        (final(client)@, listing_said(r)) == old(client)@.secrets_listed(
            vault@,
            Some(secrets_url(vault@.uri)),
            Seq::empty(),
            PAGES as nat,
        ),
{
    let mut rows: Vec<SecretRow> = Vec::new();
    let mut first = base(vault);
    first.push_str("secrets?api-version=7.4&maxresults=25");
    let mut url: Option<String> = Some(first);
    let mut left: u64 = PAGES;
    proof {
        assert(views(rows@) =~= Seq::<SecretRowView>::empty());
    }
    // The listing hands back the next page's whole address — api-version and
    // skip token included — so it is followed rather than rebuilt.
    while left > 0 && url.is_some()
        invariant
            client@.secrets_listed(vault@, said(url), views(rows@), left as nat) == old(
                client,
            )@.secrets_listed(
                vault@,
                Some(secrets_url(vault@.uri)),
                Seq::empty(),
                PAGES as nat,
            ),
        decreases left,
    {
        if let Some(next) = url {
            let page = match client.call(&Audience::Vault, Request::get(next.as_str())) {
                Ok(page) => page,
                Err(failure) => return Err(explain(vault, failure)),
            };
            collect_rows(vault, &page, &mut rows);
            url = text(page.get("nextLink"));
            left = left - 1;
        } else {
            return Ok(rows);
        }
    }
    if url.is_some() {
        return Err(Failure::other("the listing never came to an end".to_owned()));
    }
    Ok(rows)
}

fn put_newest_first(versions: Vec<SecretVersion>) -> (r: Vec<SecretVersion>)
    ensures
        views(r@) == newest_first(views(versions@)),
{
    let ghost ahead = |a: VersionView, b: VersionView| later(a.created, b.created);
    let ghost all = views(versions@);
    let mut out: Vec<SecretVersion> = Vec::new();
    proof {
        assert(views(out@) =~= Seq::<VersionView>::empty());
        assert(all.take(0) =~= Seq::<VersionView>::empty());
    }
    for version in iter: versions.into_iter()
        invariant
            all == views(iter.seq()),
            ahead == (|a: VersionView, b: VersionView| later(a.created, b.created)),
            views(out@) == ordered(all.take(iter.index() as int), ahead),
    {
        let ghost i = iter.index() as int;
        let ghost item = version@;
        let ghost was = views(out@);
        proof {
            assert(all.take(i + 1).drop_last() =~= all.take(i));
            assert(all.take(i + 1).last() == version@);
        }
        let mut at: usize = out.len();
        while at > 0 && is_later(version.created, out[at - 1].created)
            invariant
                at <= out@.len(),
                was == views(out@),
                item == version@,
                forall|k: int|
                    at <= k < was.len() ==> later(item.created, (#[trigger] was[k]).created),
            decreases at,
        {
            at = at - 1;
        }
        let ghost held = out@;
        out.insert(at, version);
        proof {
            assert forall|k: int| at <= k < was.len() implies ahead(item, #[trigger] was[k]) by {
            }
            lemma_inserted(was, item, ahead, at as int);
            assert(views(out@) =~= was.insert(at as int, item));
        }
    }
    proof {
        assert(all.take(all.len() as int) =~= all);
    }
    out
}

/// One secret's versions, newest first.
pub fn versions<T: TokenSource, H: Transport, C: Clock>(
    client: &mut Client<T, H, C>,
    vault: &Vault,
    name: &str,
) -> (r: Result<Vec<SecretVersion>, Failure>)
    ensures
        (final(client)@, listing_said(r)) == old(client)@.versions_listed(
            vault@,
            Some(versions_url(vault@.uri, name@)),
            Seq::empty(),
            PAGES as nat,
        ),
{
    let mut versions: Vec<SecretVersion> = Vec::new();
    let mut first = base(vault);
    first.push_str("secrets/");
    first.push_str(segment(name).as_str());
    first.push_str("/versions?api-version=7.4&maxresults=25");
    let mut url: Option<String> = Some(first);
    let mut left: u64 = PAGES;
    proof {
        assert(views(versions@) =~= Seq::<VersionView>::empty());
    }
    while left > 0 && url.is_some()
        invariant
            client@.versions_listed(vault@, said(url), views(versions@), left as nat) == old(
                client,
            )@.versions_listed(
                vault@,
                Some(versions_url(vault@.uri, name@)),
                Seq::empty(),
                PAGES as nat,
            ),
        decreases left,
    {
        if let Some(next) = url {
            let page = match client.call(&Audience::Vault, Request::get(next.as_str())) {
                Ok(page) => page,
                Err(failure) => return Err(explain(vault, failure)),
            };
            collect_versions(&page, &mut versions);
            url = text(page.get("nextLink"));
            left = left - 1;
        } else {
            return Ok(put_newest_first(versions));
        }
    }
    if url.is_some() {
        return Err(Failure::other("the listing never came to an end".to_owned()));
    }
    // The service does not promise an order, and the newest is the one anybody
    // is looking for.
    Ok(put_newest_first(versions))
}

/// One secret's value, and the version it came from.
///
/// A listing never calls this and neither does a refresh: it is reached from
/// `v` and `y`, and from `secret get`.
pub fn value<T: TokenSource, H: Transport, C: Clock>(
    client: &mut Client<T, H, C>,
    vault: &Vault,
    name: &str,
    version: Option<&str>,
) -> (r: Result<(Secret, String), Failure>)
    ensures
        (final(client)@, value_said(r)) == old(client)@.value_read(
            vault@,
            name@,
            super::waits::header_said(version),
        ),
{
    let mut url = base(vault);
    url.push_str("secrets/");
    url.push_str(segment(name).as_str());
    if let Some(version) = version {
        url.push_str("/");
        url.push_str(segment(version).as_str());
    }
    url.push_str("?api-version=7.4");
    let answer = match client.call(&Audience::Vault, Request::get(url.as_str())) {
        Ok(answer) => answer,
        Err(failure) => return Err(explain(vault, failure)),
    };
    let secret = match as_str(answer.get("value")) {
        Some(value) => Secret::new(value),
        None => {
            let mut said = vault.name.clone();
            said.push_str(" did not answer with a value for ");
            said.push_str(name);
            return Err(Failure::other(said));
        },
    };
    let version = match text(answer.get("id")) {
        Some(id) => last_part(id.as_str(), '/'),
        None => String::new(),
    };
    Ok((secret, version))
}

} // verus!
