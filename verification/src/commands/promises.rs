//! What is promised of the commands' answers: which cell each column and each
//! member says, and which request a value and a list of tags come from.

use vstd::prelude::*;

use super::narrowing::{
    leaves, law_the_registries_read_are_those_named, law_the_vaults_read_are_those_named,
};
use super::print::{
    repositories_document, repository_document, repository_line, repository_lines, secret_document,
    secret_line, secret_lines, secrets_document, tag_document, tag_line, tag_lines,
    tags_listed_document, value_document,
};
use super::read::{registries_for, vaults_for, Context};
use super::{
    at_most_one, printed, registry_chosen, secret_got, some_failed, tags_run, vault_chosen, OutputView,
    ReasonView,
};
use crate::app::secrets::Expiry;
use crate::azure::acr::{tag_in, tags_in};
use crate::azure::encode::{escaped, path_text};
use crate::azure::json::JsonView;
use crate::azure::readings::{
    ended, headed, last_answered, law_a_value_is_asked_for_by_its_version, lemma_found_at,
};
use crate::azure::transport::{BodyView, ClientView, Method};
use crate::azure::write::{compact_text, pretty_text, written};
use crate::azure::{
    views, Registry, RegistryView, Repository, RepositoryView, SecretRow, SecretRowView, Tag,
    TagView, VaultView,
};
use crate::text::{after_last, decimal, joined, trimmed, without_trailing};
use crate::timestamp::{age_text, rfc3339_seconds, rfc3339_text, Timestamp};

verus! {

// ---------------------------------------------------------------------------
// Documents
// ---------------------------------------------------------------------------

/// A moment in RFC 3339, or null where there is none.
pub open spec fn dates(member: JsonView, stamp: Option<Timestamp>) -> bool {
    match stamp {
        Some(stamp) => match rfc3339_text(stamp.seconds) {
            Some(text) => member == JsonView::Text(text),
            None => member is Null,
        },
        None => member is Null,
    }
}

/// A count, or null where there is none.
pub open spec fn counts(member: JsonView, count: Option<u64>) -> bool {
    match count {
        Some(count) => member matches JsonView::Number(Some(n)) && n == count,
        None => member is Null,
    }
}

/// A text, or null where there is none.
pub open spec fn says(member: JsonView, text: Option<String>) -> bool {
    match text {
        Some(text) => member == JsonView::Text(text@),
        None => member is Null,
    }
}

proof fn lemma_document_keys()
    ensures
        "vault"@.len() == 5 && "name"@.len() == 4 && "enabled"@.len() == 7 && "content_type"@.len()
            == 12 && "expires"@.len() == 7 && "created"@.len() == 7 && "updated"@.len() == 7
            && "managed"@.len() == 7 && "tags"@.len() == 4,
        "registry"@.len() == 8 && "repository"@.len() == 10 && "tag_count"@.len() == 9
            && "manifest_count"@.len() == 14 && "tag"@.len() == 3 && "digest"@.len() == 6
            && "pull"@.len() == 4 && "version"@.len() == 7 && "value"@.len() == 5,
        "enabled"@[0] == 'e' && "expires"@[0] == 'e' && "created"@[0] == 'c' && "updated"@[0] == 'u'
            && "managed"@[0] == 'm' && "version"@[0] == 'v',
        "enabled"@[1] == 'n' && "expires"@[1] == 'x',
        "name"@[0] == 'n' && "tags"@[0] == 't' && "pull"@[0] == 'p',
        "vault"@[2] == 'u' && "value"@[2] == 'l',
{
    reveal_strlit("vault");
    reveal_strlit("name");
    reveal_strlit("enabled");
    reveal_strlit("content_type");
    reveal_strlit("expires");
    reveal_strlit("created");
    reveal_strlit("updated");
    reveal_strlit("managed");
    reveal_strlit("tags");
    reveal_strlit("registry");
    reveal_strlit("repository");
    reveal_strlit("tag_count");
    reveal_strlit("manifest_count");
    reveal_strlit("tag");
    reveal_strlit("digest");
    reveal_strlit("pull");
    reveal_strlit("version");
    reveal_strlit("value");
}

/// Each member of a secret's document is the row's own field of that name.
pub proof fn law_a_secrets_document_says_its_own_fields(row: SecretRow)
    ensures
        secret_document(row@).member("vault"@) == JsonView::Text(row.vault@),
        secret_document(row@).member("name"@) == JsonView::Text(row.name@),
        secret_document(row@).member("enabled"@) == JsonView::Bool(row.enabled),
        secret_document(row@).member("managed"@) == JsonView::Bool(row.managed),
        says(secret_document(row@).member("content_type"@), row.content_type),
        dates(secret_document(row@).member("expires"@), row.expires),
        dates(secret_document(row@).member("created"@), row.created),
        dates(secret_document(row@).member("updated"@), row.updated),
        secret_document(row@).member("tags"@).fields().len() == row.tags@.len(),
        forall|i: int|
            0 <= i < row.tags@.len() ==> #[trigger] secret_document(row@).member(
                "tags"@,
            ).fields()[i] == (row.tags@[i].0@, JsonView::Text(row.tags@[i].1@)),
{
    lemma_document_keys();
    let fields = secret_document(row@)->Object_0;
    lemma_found_at(fields, "vault"@, 0);
    lemma_found_at(fields, "name"@, 1);
    lemma_found_at(fields, "enabled"@, 2);
    lemma_found_at(fields, "content_type"@, 3);
    lemma_found_at(fields, "expires"@, 4);
    lemma_found_at(fields, "created"@, 5);
    lemma_found_at(fields, "updated"@, 6);
    lemma_found_at(fields, "managed"@, 7);
    lemma_found_at(fields, "tags"@, 8);
}

/// Each member of a repository's document is the row's own field.
pub proof fn law_a_repositorys_document_says_its_own_fields(row: Repository)
    ensures
        repository_document(row@).member("registry"@) == JsonView::Text(row.registry@),
        repository_document(row@).member("repository"@) == JsonView::Text(row.name@),
        counts(repository_document(row@).member("tag_count"@), row.tag_count),
        counts(repository_document(row@).member("manifest_count"@), row.manifest_count),
        dates(repository_document(row@).member("created"@), row.created),
        dates(repository_document(row@).member("updated"@), row.updated),
{
    lemma_document_keys();
    let fields = repository_document(row@)->Object_0;
    lemma_found_at(fields, "registry"@, 0);
    lemma_found_at(fields, "repository"@, 1);
    lemma_found_at(fields, "tag_count"@, 2);
    lemma_found_at(fields, "manifest_count"@, 3);
    lemma_found_at(fields, "created"@, 4);
    lemma_found_at(fields, "updated"@, 5);
}

/// Each member of a tag's document is the tag's own field, under the registry
/// and the repository it is of; `pull` is what pulls it.
pub proof fn law_a_tags_document_says_its_own_fields(
    registry: Registry,
    repo: Seq<char>,
    tag: Tag,
)
    ensures
        tag_document(registry@, repo, tag@).member("registry"@) == JsonView::Text(registry.name@),
        tag_document(registry@, repo, tag@).member("repository"@) == JsonView::Text(repo),
        tag_document(registry@, repo, tag@).member("tag"@) == JsonView::Text(tag.name@),
        tag_document(registry@, repo, tag@).member("digest"@) == JsonView::Text(tag.digest@),
        tag_document(registry@, repo, tag@).member("pull"@) == JsonView::Text(
            registry.login_server@ + "/"@ + repo + ":"@ + tag.name@,
        ),
        dates(tag_document(registry@, repo, tag@).member("created"@), tag.created),
        dates(tag_document(registry@, repo, tag@).member("updated"@), tag.updated),
{
    lemma_tag_members(registry@, repo, tag@);
}

proof fn lemma_tag_members(registry: RegistryView, repo: Seq<char>, tag: TagView)
    ensures
        tag_document(registry, repo, tag).member("registry"@) == JsonView::Text(registry.name),
        tag_document(registry, repo, tag).member("repository"@) == JsonView::Text(repo),
        tag_document(registry, repo, tag).member("tag"@) == JsonView::Text(tag.name),
        tag_document(registry, repo, tag).member("digest"@) == JsonView::Text(tag.digest),
        tag_document(registry, repo, tag).member("pull"@) == JsonView::Text(
            registry.login_server + "/"@ + repo + ":"@ + tag.name,
        ),
        dates(tag_document(registry, repo, tag).member("created"@), tag.created),
        dates(tag_document(registry, repo, tag).member("updated"@), tag.updated),
{
    lemma_document_keys();
    let fields = tag_document(registry, repo, tag)->Object_0;
    lemma_found_at(fields, "registry"@, 0);
    lemma_found_at(fields, "repository"@, 1);
    lemma_found_at(fields, "tag"@, 2);
    lemma_found_at(fields, "digest"@, 3);
    lemma_found_at(fields, "pull"@, 4);
    lemma_found_at(fields, "created"@, 5);
    lemma_found_at(fields, "updated"@, 6);
}

/// Each member of a value's document is what it was made of.
pub proof fn law_a_values_document_says_what_it_is_of(
    vault: Seq<char>,
    name: Seq<char>,
    version: Seq<char>,
    content_type: Option<Seq<char>>,
    value: Seq<char>,
)
    ensures
        ({
            let document = value_document(vault, name, version, content_type, value);
            &&& document.member("vault"@) == JsonView::Text(vault)
            &&& document.member("name"@) == JsonView::Text(name)
            &&& document.member("version"@) == JsonView::Text(version)
            &&& document.member("value"@) == JsonView::Text(value)
            &&& content_type is None ==> document.member("content_type"@) is Null
            &&& content_type is Some ==> document.member("content_type"@) == JsonView::Text(
                content_type->0,
            )
        }),
{
    lemma_document_keys();
    let fields = value_document(vault, name, version, content_type, value)->Object_0;
    lemma_found_at(fields, "vault"@, 0);
    lemma_found_at(fields, "name"@, 1);
    lemma_found_at(fields, "version"@, 2);
    lemma_found_at(fields, "content_type"@, 3);
    lemma_found_at(fields, "value"@, 4);
}

/// A date as an answer has it, written again in RFC 3339; null where there is
/// none.
pub open spec fn dated_as(answered: JsonView, member: JsonView) -> bool {
    match answered {
        JsonView::Text(text) if trimmed(text).len() > 0 => match rfc3339_seconds(trimmed(text)) {
            Some(seconds) => match rfc3339_text(seconds) {
                Some(text) => member == JsonView::Text(text),
                None => member is Null,
            },
            None => member is Null,
        },
        _ => member is Null,
    }
}

/// Whether a document says of a tag what an entry of the registry's answer
/// does.
pub open spec fn tells_of(document: JsonView, entry: JsonView) -> bool {
    &&& dated_as(entry.member("createdTime"@), document.member("created"@))
    &&& dated_as(entry.member("lastUpdateTime"@), document.member("updated"@))
    &&& entry.member("name"@) matches JsonView::Text(name) && document.member("tag"@)
        == JsonView::Text(trimmed(name))
}

/// For every tag of the registry's answer, `created` of its document is the
/// entry's `createdTime` and `updated` its `lastUpdateTime`, both written in
/// RFC 3339, and null where there is none.
pub proof fn law_a_tags_dates_are_the_entrys(
    registry: RegistryView,
    repo: Seq<char>,
    entry: JsonView,
    tag: TagView,
)
    requires
        tag_in(entry) == Some(tag),
    ensures
        dated_as(
            entry.member("createdTime"@),
            tag_document(registry, repo, tag).member("created"@),
        ),
        dated_as(
            entry.member("lastUpdateTime"@),
            tag_document(registry, repo, tag).member("updated"@),
        ),
        tells_of(tag_document(registry, repo, tag), entry),
{
    lemma_tag_members(registry, repo, tag);
}

/// Each document of a page's tags tells of an entry of the page, and every
/// entry with a name is told of.
pub proof fn law_a_page_of_tags_is_told_entry_by_entry(
    registry: RegistryView,
    repo: Seq<char>,
    entries: Seq<JsonView>,
)
    ensures
        ({
            let documents = tags_listed_document(registry, repo, tags_in(entries)).items();
            &&& documents.len() == tags_in(entries).len()
            &&& forall|k: int|
                0 <= k < documents.len() ==> told_by_one(#[trigger] documents[k], entries)
            &&& forall|e: int|
                0 <= e < entries.len() && tag_in(#[trigger] entries[e]) is Some ==> tells_one(
                    documents,
                    entries[e],
                )
        }),
    decreases entries.len(),
{
    let tags = tags_in(entries);
    let documents = tags_listed_document(registry, repo, tags).items();
    if entries.len() > 0 {
        let before = entries.drop_last();
        law_a_page_of_tags_is_told_entry_by_entry(registry, repo, before);
        let first = tags_listed_document(registry, repo, tags_in(before)).items();
        let last = entries.last();
        assert(entries[entries.len() - 1] == last);
        if let Some(tag) = tag_in(last) {
            law_a_tags_dates_are_the_entrys(registry, repo, last, tag);
        }
        assert forall|k: int| 0 <= k < documents.len() implies told_by_one(
            #[trigger] documents[k],
            entries,
        ) by {
            if k < first.len() {
                assert(documents[k] == first[k]);
                assert(told_by_one(first[k], before));
                let e = choose|e: int|
                    0 <= e < before.len() && tells_of(first[k], #[trigger] before[e]);
                assert(entries[e] == before[e]);
            } else {
                assert(tells_of(documents[k], entries[entries.len() - 1]));
            }
        }
        assert forall|e: int|
            0 <= e < entries.len() && tag_in(#[trigger] entries[e]) is Some implies tells_one(
            documents,
            entries[e],
        ) by {
            if e < before.len() {
                assert(before[e] == entries[e]);
                assert(tells_one(first, before[e]));
                let k = choose|k: int|
                    0 <= k < first.len() && tells_of(#[trigger] first[k], before[e]);
                assert(documents[k] == first[k]);
            } else {
                let k = documents.len() - 1;
                assert(tells_of(documents[k], entries[e]));
            }
        }
    }
}

/// Whether a document tells of one of some entries.
pub open spec fn told_by_one(document: JsonView, entries: Seq<JsonView>) -> bool {
    exists|e: int| 0 <= e < entries.len() && tells_of(document, #[trigger] entries[e])
}

/// Whether one of some documents tells of an entry.
pub open spec fn tells_one(documents: Seq<JsonView>, entry: JsonView) -> bool {
    exists|k: int| 0 <= k < documents.len() && tells_of(#[trigger] documents[k], entry)
}

/// A listing's document has one document for each row, in the rows' order.
pub proof fn law_a_document_has_one_for_each_row(
    secrets: Vec<SecretRow>,
    repositories: Vec<Repository>,
    registry: Registry,
    repo: Seq<char>,
    tags: Vec<Tag>,
    i: int,
)
    ensures
        secrets_document(views(secrets@)).items().len() == secrets@.len(),
        0 <= i < secrets@.len() ==> secrets_document(views(secrets@)).items()[i] == secret_document(
            secrets@[i]@,
        ),
        repositories_document(views(repositories@)).items().len() == repositories@.len(),
        0 <= i < repositories@.len() ==> repositories_document(views(repositories@)).items()[i]
            == repository_document(repositories@[i]@),
        tags_listed_document(registry@, repo, views(tags@)).items().len() == tags@.len(),
        0 <= i < tags@.len() ==> tags_listed_document(registry@, repo, views(tags@)).items()[i]
            == tag_document(registry@, repo, tags@[i]@),
{
}

// ---------------------------------------------------------------------------
// Lines
// ---------------------------------------------------------------------------

/// What fills a cell up to its width.
pub open spec fn gap(held: nat, width: nat) -> Seq<char> {
    Seq::new(
        if held < width {
            (width - held) as nat
        } else {
            0
        },
        |i: int| ' ',
    )
}

/// What a cell says of how long ago a moment was.
pub open spec fn ago(stamp: Option<Timestamp>, now: Timestamp, text: Seq<char>) -> bool {
    match stamp {
        None => text == "—"@,
        Some(stamp) => forall|n: int|
            n == now.seconds - stamp.seconds && i64::MIN < n <= i64::MAX ==> #[trigger] apart(
                n,
                text,
            ),
    }
}

/// Whether a text is how far apart two moments are: in days, or else in hours,
/// minutes or seconds, whichever is the first to be whole.
pub open spec fn apart(n: int, text: Seq<char>) -> bool {
    let size = if n < 0 {
        -n
    } else {
        n
    };
    &&& size == 0 ==> text == "now"@
    &&& 0 < size < 60 ==> text == decimal(size as nat) + "s"@
    &&& 60 <= size < 3_600 ==> text == decimal((size / 60) as nat) + "m"@
    &&& 3_600 <= size < 86_400 ==> text == decimal((size / 3_600) as nat) + "h"@
    &&& 86_400 <= size ==> text == decimal((size / 86_400) as nat) + "d"@
}

/// What a cell says of an expiry: nothing set, gone by, within thirty days of
/// now with a mark, or later.
pub open spec fn runs_out(stamp: Option<Timestamp>, now: Timestamp, text: Seq<char>) -> bool {
    match stamp {
        None => text == "—"@,
        Some(stamp) => forall|n: int|
            n == stamp.seconds - now.seconds && i64::MIN < n <= i64::MAX ==> #[trigger] runs_in(
                n,
                text,
            ),
    }
}

pub open spec fn runs_in(n: int, text: Seq<char>) -> bool {
    &&& n < 0 ==> text == "expired"@
    &&& 0 <= n < 31 * 86_400 ==> exists|age: Seq<char>| #[trigger]
        apart(n, age) && text == age + " ⚠"@
    &&& 31 * 86_400 <= n ==> apart(n, text)
}

/// A cell of an age or of an expiry says how far the moment is from now.
pub proof fn law_a_cell_says_how_far_off_a_moment_is(stamp: Option<Timestamp>, now: Timestamp)
    ensures
        ago(stamp, now, crate::timestamp::age_cell(stamp, now)),
        runs_out(stamp, now, Expiry::reads(stamp, now).cell_text(stamp, now)),
{
    if let Some(stamp) = stamp {
        let text = crate::timestamp::age_cell(Some(stamp), now);
        assert forall|n: int|
            n == now.seconds - stamp.seconds && i64::MIN < n <= i64::MAX implies #[trigger] apart(
            n,
            text,
        ) by {
            assert(i64::MIN <= stamp.seconds - now.seconds <= i64::MAX);
        }
        let cell = Expiry::reads(Some(stamp), now).cell_text(Some(stamp), now);
        assert forall|n: int|
            n == stamp.seconds - now.seconds && i64::MIN < n <= i64::MAX implies #[trigger] runs_in(
            n,
            cell,
        ) by {
            let age = age_text(n);
            assert(apart(n, age));
            assert(age + " ⚠"@ == age + " ⚠"@);
        }
    }
}

/// A secret's line says its vault, its name, whether it is enabled, when it
/// runs out and when it was updated, each in the row's own cell.
pub proof fn law_a_secrets_line_says_its_own_cells(row: SecretRow, now: Timestamp) -> (r: (
    Seq<char>,
    Seq<char>,
))
    ensures
        runs_out(row.expires, now, r.0),
        ago(row.updated, now, r.1),
        secret_line(row@, now) == row.vault@ + gap(row.vault@.len(), 16) + " "@ + row.name@ + gap(
            row.name@.len(),
            40,
        ) + " "@ + (if row.enabled {
            "enabled "@
        } else {
            "disabled"@
        }) + " "@ + r.0 + gap(r.0.len(), 10) + " "@ + r.1 + "\n"@,
{
    let expiry = Expiry::reads(row.expires, now).cell_text(row.expires, now);
    let updated = crate::timestamp::age_cell(row.updated, now);
    law_a_cell_says_how_far_off_a_moment_is(row.expires, now);
    law_a_cell_says_how_far_off_a_moment_is(row.updated, now);
    reveal_strlit("enabled");
    reveal_strlit("enabled ");
    reveal_strlit("disabled");
    assert(super::print::filled("enabled"@, 8) =~= "enabled "@);
    assert(super::print::filled("disabled"@, 8) =~= "disabled"@);
    assert(super::print::filled(row.vault@, 16) =~= row.vault@ + gap(row.vault@.len(), 16));
    assert(super::print::filled(row.name@, 40) =~= row.name@ + gap(row.name@.len(), 40));
    assert(super::print::filled(expiry, 10) =~= expiry + gap(expiry.len(), 10));
    assert(secret_line(row@, now) =~= row.vault@ + gap(row.vault@.len(), 16) + " "@ + row.name@
        + gap(row.name@.len(), 40) + " "@ + (if row.enabled {
        "enabled "@
    } else {
        "disabled"@
    }) + " "@ + expiry + gap(expiry.len(), 10) + " "@ + updated + "\n"@);
    (expiry, updated)
}

/// A repository's line says its registry, its name, how many tags it has and
/// when it was updated, each in the row's own cell.
pub proof fn law_a_repositorys_line_says_its_own_cells(row: Repository, now: Timestamp) -> (r: (
    Seq<char>,
    Seq<char>,
))
    ensures
        row.tag_count matches Some(count) ==> r.0 == decimal(count as nat),
        row.tag_count is None ==> r.0 == "—"@,
        ago(row.updated, now, r.1),
        repository_line(row@, now) == row.registry@ + gap(row.registry@.len(), 16) + " "@ + row.name@
            + gap(row.name@.len(), 40) + " "@ + gap(r.0.len(), 6) + r.0 + " "@ + r.1 + "\n"@,
{
    let count = match row.tag_count {
        Some(count) => decimal(count as nat),
        None => "—"@,
    };
    let updated = crate::timestamp::age_cell(row.updated, now);
    law_a_cell_says_how_far_off_a_moment_is(row.updated, now);
    assert(super::print::filled(row.registry@, 16) =~= row.registry@ + gap(row.registry@.len(), 16));
    assert(super::print::filled(row.name@, 40) =~= row.name@ + gap(row.name@.len(), 40));
    assert(super::print::pushed_right(count, 6) =~= gap(count.len(), 6) + count);
    assert(repository_line(row@, now) =~= row.registry@ + gap(row.registry@.len(), 16) + " "@
        + row.name@ + gap(row.name@.len(), 40) + " "@ + gap(count.len(), 6) + count + " "@ + updated
        + "\n"@);
    (count, updated)
}

/// A tag's line says its name, the beginning of its digest and when it was
/// updated, each in the tag's own cell.
pub proof fn law_a_tags_line_says_its_own_cells(tag: Tag, now: Timestamp) -> (r: (
    Seq<char>,
    Seq<char>,
))
    ensures
        headed(tag.digest@, r.0),
        ago(tag.updated, now, r.1),
        tag_line(tag@, now) == tag.name@ + gap(tag.name@.len(), 30) + " "@ + r.0 + gap(
            r.0.len(),
            20,
        ) + " "@ + r.1 + "\n"@,
{
    let digest = crate::azure::acr::short_text(tag.digest@);
    let updated = crate::timestamp::age_cell(tag.updated, now);
    law_a_digest_is_cut_after_eight(tag.digest@);
    law_a_cell_says_how_far_off_a_moment_is(tag.updated, now);
    assert(super::print::filled(tag.name@, 30) =~= tag.name@ + gap(tag.name@.len(), 30));
    assert(super::print::filled(digest, 20) =~= digest + gap(digest.len(), 20));
    assert(tag_line(tag@, now) =~= tag.name@ + gap(tag.name@.len(), 30) + " "@ + digest + gap(
        digest.len(),
        20,
    ) + " "@ + updated + "\n"@);
    (digest, updated)
}

/// A digest is cut eight letters behind the first colon, and never before the
/// whole of one that is shorter.
pub proof fn law_a_digest_is_cut_after_eight(digest: Seq<char>)
    ensures
        headed(digest, crate::azure::acr::short_text(digest)),
        forall|at: int|
            0 <= at < digest.len() && #[trigger] digest[at] == ':' && (forall|k: int|
                0 <= k < at ==> #[trigger] digest[k] != ':') ==> crate::azure::acr::short_text(
                digest,
            ) == if digest.len() > at + 9 {
                digest.take(at + 9)
            } else {
                digest
            },
        (forall|k: int| 0 <= k < digest.len() ==> #[trigger] digest[k] != ':')
            ==> crate::azure::acr::short_text(digest) == digest,
{
    assert(digest.take(digest.len() as int) =~= digest);
    lemma_first_colon(digest);
    assert forall|at: int|
        0 <= at < digest.len() && #[trigger] digest[at] == ':' && (forall|k: int|
            0 <= k < at ==> #[trigger] digest[k] != ':') implies crate::filter::first_at(digest, ':')
        == at by {
        let first = crate::filter::first_at(digest, ':');
        if first < at {
            assert(digest[first] != ':');
        }
    }
}

proof fn lemma_first_colon(s: Seq<char>)
    ensures
        0 <= crate::filter::first_at(s, ':') <= s.len(),
        crate::filter::first_at(s, ':') < s.len() ==> s[crate::filter::first_at(s, ':')] == ':',
        forall|k: int| 0 <= k < crate::filter::first_at(s, ':') ==> #[trigger] s[k] != ':',
    decreases s.len(),
{
    if s.len() > 0 && s[0] != ':' {
        let rest = s.skip(1);
        lemma_first_colon(rest);
        assert forall|k: int| 0 <= k < crate::filter::first_at(s, ':') implies #[trigger] s[k]
            != ':' by {
            if k > 0 {
                assert(rest[k - 1] == s[k]);
            }
        }
    }
}

/// A listing has a line for each row, one after another in the rows' order.
pub proof fn law_a_listing_has_a_line_for_each_row(
    secrets: Seq<SecretRowView>,
    more_secrets: Seq<SecretRowView>,
    repositories: Seq<RepositoryView>,
    more_repositories: Seq<RepositoryView>,
    tags: Seq<TagView>,
    more_tags: Seq<TagView>,
    now: Timestamp,
)
    ensures
        secret_lines(secrets + more_secrets, now) == secret_lines(secrets, now) + secret_lines(
            more_secrets,
            now,
        ),
        repository_lines(repositories + more_repositories, now) == repository_lines(
            repositories,
            now,
        ) + repository_lines(more_repositories, now),
        tag_lines(tags + more_tags, now) == tag_lines(tags, now) + tag_lines(more_tags, now),
        forall|row: SecretRowView| #[trigger]
            secret_lines(seq![row], now) == secret_line(row, now),
        forall|row: RepositoryView| #[trigger]
            repository_lines(seq![row], now) == repository_line(row, now),
        forall|tag: TagView| #[trigger] tag_lines(seq![tag], now) == tag_line(tag, now),
{
    lemma_secret_lines(secrets, more_secrets, now);
    lemma_repository_lines(repositories, more_repositories, now);
    lemma_tag_lines(tags, more_tags, now);
    assert forall|row: SecretRowView| #[trigger]
        secret_lines(seq![row], now) == secret_line(row, now) by {
        assert(seq![row].drop_last() =~= Seq::<SecretRowView>::empty());
        let none = Seq::<SecretRowView>::empty();
        let line = secret_line(row, now);
        assert(secret_lines(none, now) == Seq::<char>::empty());
        assert(secret_lines(seq![row], now) == secret_lines(none, now) + line);
        assert(Seq::<char>::empty() + line =~= line);
    }
    assert forall|row: RepositoryView| #[trigger]
        repository_lines(seq![row], now) == repository_line(row, now) by {
        assert(seq![row].drop_last() =~= Seq::<RepositoryView>::empty());
        let none = Seq::<RepositoryView>::empty();
        let line = repository_line(row, now);
        assert(repository_lines(none, now) == Seq::<char>::empty());
        assert(repository_lines(seq![row], now) == repository_lines(none, now) + line);
        assert(Seq::<char>::empty() + line =~= line);
    }
    assert forall|tag: TagView| #[trigger] tag_lines(seq![tag], now) == tag_line(tag, now) by {
        assert(seq![tag].drop_last() =~= Seq::<TagView>::empty());
        let none = Seq::<TagView>::empty();
        let line = tag_line(tag, now);
        assert(tag_lines(none, now) == Seq::<char>::empty());
        assert(tag_lines(seq![tag], now) == tag_lines(none, now) + line);
        assert(Seq::<char>::empty() + line =~= line);
    }
}

proof fn lemma_secret_lines(a: Seq<SecretRowView>, b: Seq<SecretRowView>, now: Timestamp)
    ensures
        secret_lines(a + b, now) == secret_lines(a, now) + secret_lines(b, now),
    decreases b.len(),
{
    if b.len() == 0 {
        assert(a + b =~= a);
        assert(secret_lines(a, now) + secret_lines(b, now) =~= secret_lines(a, now));
    } else {
        assert((a + b).drop_last() =~= a + b.drop_last());
        assert((a + b).last() == b.last());
        lemma_secret_lines(a, b.drop_last(), now);
        assert(secret_lines(a + b, now) =~= secret_lines(a, now) + secret_lines(b, now));
    }
}

proof fn lemma_repository_lines(a: Seq<RepositoryView>, b: Seq<RepositoryView>, now: Timestamp)
    ensures
        repository_lines(a + b, now) == repository_lines(a, now) + repository_lines(b, now),
    decreases b.len(),
{
    if b.len() == 0 {
        assert(a + b =~= a);
        assert(repository_lines(a, now) + repository_lines(b, now) =~= repository_lines(a, now));
    } else {
        assert((a + b).drop_last() =~= a + b.drop_last());
        assert((a + b).last() == b.last());
        lemma_repository_lines(a, b.drop_last(), now);
        assert(repository_lines(a + b, now) =~= repository_lines(a, now) + repository_lines(
            b,
            now,
        ));
    }
}

proof fn lemma_tag_lines(a: Seq<TagView>, b: Seq<TagView>, now: Timestamp)
    ensures
        tag_lines(a + b, now) == tag_lines(a, now) + tag_lines(b, now),
    decreases b.len(),
{
    if b.len() == 0 {
        assert(a + b =~= a);
        assert(tag_lines(a, now) + tag_lines(b, now) =~= tag_lines(a, now));
    } else {
        assert((a + b).drop_last() =~= a + b.drop_last());
        assert((a + b).last() == b.last());
        lemma_tag_lines(a, b.drop_last(), now);
        assert(tag_lines(a + b, now) =~= tag_lines(a, now) + tag_lines(b, now));
    }
}

// ---------------------------------------------------------------------------
// One value
// ---------------------------------------------------------------------------

/// What the address of a value ends in: the secret's name, and behind it the
/// version where one is asked for.
pub open spec fn tail_of(name: Seq<char>, version: Option<Seq<char>>) -> Seq<char> {
    match version {
        Some(version) => "/secrets/"@ + escaped(name) + "/"@ + escaped(version)
            + "?api-version=7.4"@,
        None => "/secrets/"@ + escaped(name) + "?api-version=7.4"@,
    }
}

/// Whether what was printed is the value that an answer holds: as it stands,
/// or in a document with the vault, the name and the version.
pub open spec fn prints(
    output: OutputView,
    answer: JsonView,
    vault: VaultView,
    name: Seq<char>,
    json: bool,
) -> bool {
    &&& answer.member("value"@) is Text
    &&& !json ==> output == OutputView::Raw(answer.member("value"@)->Text_0)
    &&& json ==> output is Compact && {
        let document = output->Compact_0;
        &&& document.member("value"@) == answer.member("value"@)
        &&& document.member("name"@) == JsonView::Text(name)
        &&& document.member("vault"@) == JsonView::Text(vault.name)
        &&& forall|id: Seq<char>|
            answer.member("id"@) == JsonView::Text(id) && (#[trigger] trimmed(id)).len() > 0
                ==> document.member("version"@) == JsonView::Text(after_last(trimmed(id), '/'))
    }
}

/// A value that `secret get` prints is in the answer to the last request it
/// sent. That is a GET of the secret by its name, and by the version where one
/// was given, of a vault in the inventory that the allowlist and the flag
/// leave.
pub proof fn law_secret_get_reads_the_version_it_is_given(
    client: ClientView,
    context: Context,
    name: Seq<char>,
    only: Option<Seq<char>>,
    version: Option<Seq<char>>,
    json: bool,
)
    ensures
        ({
            let (then, got) = secret_got(client, context, name, only, version, json);
            let inventory = client.inventory_for(context, false).1;
            got matches Ok(output) ==> {
                let last = then.requests.last();
                &&& then.requests.len() > 0
                &&& last.method == Method::Get
                &&& last.body == BodyView::Empty
                &&& last.bearer is Some
                &&& ended(last.url, tail_of(name, version))
                &&& inventory is Ok
                &&& exists|vault: VaultView, answer: JsonView|
                    #![trigger prints(output, answer, vault, name, json)]
                    {
                        &&& inventory->Ok_0.vaults.contains(vault)
                        &&& leaves(context.azure@.vaults, vault.name)
                        &&& only is Some ==> leaves(seq![only->0], vault.name)
                        &&& last.url == without_trailing(vault.uri, '/') + tail_of(name, version)
                        &&& last_answered(then, answer)
                        &&& prints(output, answer, vault, name, json)
                    }
            }
        }),
{
    let (one, inventory) = client.inventory_for(context, false);
    let (then, got) = secret_got(client, context, name, only, version, json);
    if let Ok(output) = got {
        let inventory = inventory->Ok_0;
        let vaults = vaults_for(inventory.vaults, context.azure@, at_most_one(only))->Ok_0;
        law_the_vaults_read_are_those_named(inventory.vaults, context.azure@, at_most_one(only));
        let (two, listings) = one.vaults_listed(vaults, vaults.len());
        let (vault, row) = vault_chosen(vaults, listings, name)->Ok_0;
        super::narrowing::lemma_vaults_listed(one, vaults, vaults.len());
        super::narrowing::law_the_holder_is_the_only_one(vaults, listings, name);
        let at = choose|at: int| #[trigger]
            super::narrowing::held_at(vaults, listings, name, (vault, row), at) && forall|j: int|
                0 <= j < listings.len() && j != at ==> !super::narrowing::lists(listings, j, name);
        assert(vault == vaults[at]);
        law_a_value_is_asked_for_by_its_version(two, vault, name, version);
        let head = without_trailing(vault.uri, '/') + "/secrets/"@ + escaped(name);
        if let Some(version) = version {
            assert(head + "/"@ + escaped(version) + "?api-version=7.4"@ =~= without_trailing(
                vault.uri,
                '/',
            ) + tail_of(name, Some(version)));
        } else {
            assert(head + "?api-version=7.4"@ =~= without_trailing(vault.uri, '/') + tail_of(
                name,
                None,
            ));
        }
        let url = without_trailing(vault.uri, '/') + tail_of(name, version);
        let tail = tail_of(name, version);
        assert(url.skip(url.len() - tail.len()) =~= tail);
        let (three, read) = two.value_read(vault, name, version);
        let held = read->Ok_0;
        let answer = choose|answer: JsonView|
            #![trigger last_answered(three, answer)]
            {
                &&& last_answered(three, answer)
                &&& answer.member("value"@) == JsonView::Text(held.0)
                &&& forall|id: Seq<char>|
                    answer.member("id"@) == JsonView::Text(id) && (#[trigger] trimmed(id)).len() > 0
                        ==> held.1 == after_last(trimmed(id), '/')
            };
        law_a_values_document_says_what_it_is_of(
            vault.name,
            name,
            held.1,
            row.content_type,
            held.0,
        );
        assert(then.requests[then.requests.len() - 1] == then.requests.last());
        assert(prints(output, answer, vault, name, json));
    }
}

/// Two versions of one secret are two different requests, and a secret without
/// a version is a third.
pub proof fn law_two_versions_are_two_requests(name: Seq<char>, a: Seq<char>, b: Seq<char>)
    ensures
        tail_of(name, Some(a)) == tail_of(name, Some(b)) ==> a == b,
        tail_of(name, Some(a)) != tail_of(name, None),
{
    let head = "/secrets/"@ + escaped(name) + "/"@;
    let end = "?api-version=7.4"@;
    reveal_strlit("/");
    if tail_of(name, Some(a)) == tail_of(name, Some(b)) {
        let (x, y) = (tail_of(name, Some(a)), tail_of(name, Some(b)));
        assert(x =~= head + escaped(a) + end);
        assert(y =~= head + escaped(b) + end);
        assert(x.len() == head.len() + escaped(a).len() + end.len());
        assert(y.len() == head.len() + escaped(b).len() + end.len());
        assert(escaped(a) =~= x.subrange(head.len() as int, x.len() - end.len()));
        assert(escaped(b) =~= y.subrange(head.len() as int, y.len() - end.len()));
        crate::azure::encode::law_an_escape_loses_nothing(a, b);
    }
    assert(tail_of(name, Some(a)).len() > tail_of(name, None).len());
}

// ---------------------------------------------------------------------------
// Tags
// ---------------------------------------------------------------------------

/// What `tags` prints comes of a listing of the tags of the repository it is
/// given, of a registry in the inventory that the allowlist and the flag leave
/// and whose catalog has that repository.
pub proof fn law_tags_are_those_of_the_repository(
    client: ClientView,
    context: Context,
    repo: Seq<char>,
    only: Option<Seq<char>>,
    json: bool,
)
    ensures
        ({
            let (then, got) = tags_run(client, context, repo, only, json);
            let inventory = client.inventory_for(context, false).1;
            got matches Ok(output) ==> {
                let last = then.requests.last();
                &&& inventory is Ok
                &&& last.method == Method::Get
                &&& exists|registry: RegistryView, tags: Seq<TagView>|
                    #![trigger tags_listed_document(registry, repo, tags)]
                    {
                        &&& inventory->Ok_0.registries.contains(registry)
                        &&& leaves(context.azure@.registries, registry.name)
                        &&& only is Some ==> leaves(seq![only->0], registry.name)
                        &&& headed(
                            last.url,
                            "https://"@ + registry.login_server + "/acr/v1/"@ + path_text(repo)
                                + "/_tags?n=100&orderby=timedesc"@,
                        )
                        &&& json ==> output == OutputView::Document(
                            tags_listed_document(registry, repo, tags),
                        )
                        &&& !json ==> output == OutputView::Lines(tag_lines(tags, context.now))
                    }
            }
        }),
{
    let (one, inventory) = client.inventory_for(context, false);
    let (then, got) = tags_run(client, context, repo, only, json);
    if let Ok(output) = got {
        let inventory = inventory->Ok_0;
        let found = inventory.registries;
        let registries = registries_for(found, context.azure@, at_most_one(only))->Ok_0;
        law_the_registries_read_are_those_named(found, context.azure@, at_most_one(only));
        let (two, catalogs) = one.catalogs_listed(registries, registries.len());
        let registry = registry_chosen(registries, catalogs, repo)->Ok_0;
        super::narrowing::lemma_catalogs_listed(one, registries, registries.len());
        super::narrowing::law_the_keeper_is_the_only_one(registries, catalogs, repo);
        let at = choose|at: int| #[trigger]
            super::narrowing::catalogs_it(catalogs, at, repo) && registry == registries[at]
                && forall|j: int|
                0 <= j < catalogs.len() && j != at ==> !super::narrowing::catalogs_it(
                    catalogs,
                    j,
                    repo,
                );
        assert(registry == registries[at]);
        crate::azure::readings::law_tags_are_asked_for_by_their_repository(
            two,
            registry,
            repo,
            None,
            Seq::empty(),
            crate::azure::graph::PAGES as nat,
        );
        let tags = two.tags_listed(
            registry,
            repo,
            None,
            Seq::empty(),
            crate::azure::graph::PAGES as nat,
        ).1->Ok_0;
        assert(tags_listed_document(registry, repo, tags) == tags_listed_document(
            registry,
            repo,
            tags,
        ));
    }
}

/// A value and a listing are printed as they stand, with nothing put behind
/// them; a document with a line's end.
pub proof fn law_a_value_is_printed_as_it_stands(text: Seq<char>, document: JsonView)
    ensures
        printed(OutputView::Raw(text)) == Ok::<Seq<char>, ReasonView>(text),
        printed(OutputView::Lines(text)) == Ok::<Seq<char>, ReasonView>(text),
        printed(OutputView::Compact(document)) == Ok::<Seq<char>, ReasonView>(
            compact_text(written(document)) + "\n"@,
        ),
        printed(OutputView::Document(document)) is Ok ==> printed(
            OutputView::Document(document),
        )->Ok_0 == pretty_text(written(document))->Ok_0 + "\n"@,
{
}

/// A listing that some would not answer is printed all the same and ends in the
/// code of a failed read, with what each of them said; one that all answered
/// ends well.
pub proof fn law_what_would_not_answer_is_told_at_the_end(failed: Seq<Seq<char>>)
    ensures
        failed.len() == 0 ==> some_failed(failed) is None,
        failed.len() > 0 ==> some_failed(failed) is Some && some_failed(failed)->0.code == 1
            && some_failed(failed)->0.message == joined(failed, "; "@),
{
}

} // verus!
