//! What is promised of each thing that is read: which member of an answer each
//! field comes from, which request the answer was to, and where that was sent.

use vstd::prelude::*;

use super::acr::{catalog_audience, manifest_in, repository_audience, repository_in, tag_in};
use super::auth::AudienceView;
use super::encode::{escaped, path_text};
use super::graph::{registry_in, vault_in};
use super::json::{field_at, json_of, lemma_no_field, JsonView};
use super::promises::{
    all_signed, goes_on, law_a_spent_token_is_worth_one_more, law_a_throttle_is_waited_out_once,
    lemma_goes_on,
};
use super::transport::{BodyView, ClientView, Method, RequestView};
use super::vault::{row_in, rows_in, secrets_url, version_in};
use super::{
    Manifest, Registry, RegistryView, Repository, SecretRow, SecretRowView, SecretVersion, Tag,
    Vault, VaultView,
};
use crate::filter::pairs;
use crate::kube::said;
use crate::text::{after_last, texts, trimmed, whole, without_trailing};
use crate::timestamp::{rfc3339_seconds, Timestamp, EARLIEST, LATEST};

verus! {

// ---------------------------------------------------------------------------
// What a value says
// ---------------------------------------------------------------------------

/// What is said of a secret, a version and a vault is what each holds, each
/// field for itself.
pub proof fn law_a_vaults_things_say_what_they_hold(
    row: SecretRow,
    version: SecretVersion,
    vault: Vault,
)
    ensures
        row@.vault == row.vault@,
        row@.name == row.name@,
        row@.enabled == row.enabled,
        row@.created == row.created,
        row@.updated == row.updated,
        row@.expires == row.expires,
        row@.not_before == row.not_before,
        row@.content_type == said(row.content_type),
        row@.tags == pairs(row.tags@),
        row@.managed == row.managed,
        version@.version == version.version@,
        version@.enabled == version.enabled,
        version@.created == version.created,
        version@.updated == version.updated,
        version@.expires == version.expires,
        vault@.id == vault.id@,
        vault@.name == vault.name@,
        vault@.resource_group == vault.resource_group@,
        vault@.location == vault.location@,
        vault@.uri == vault.uri@,
{
}

/// What is said of a repository, a tag, a manifest and a registry is what each
/// holds, each field for itself.
pub proof fn law_a_registrys_things_say_what_they_hold(
    row: Repository,
    tag: Tag,
    manifest: Manifest,
    registry: Registry,
)
    ensures
        row@.registry == row.registry@,
        row@.name == row.name@,
        row@.tag_count == row.tag_count,
        row@.manifest_count == row.manifest_count,
        row@.created == row.created,
        row@.updated == row.updated,
        tag@.name == tag.name@,
        tag@.digest == tag.digest@,
        tag@.created == tag.created,
        tag@.updated == tag.updated,
        manifest@.digest == manifest.digest@,
        manifest@.size == manifest.size,
        manifest@.architecture == said(manifest.architecture),
        manifest@.os == said(manifest.os),
        manifest@.created == manifest.created,
        manifest@.tags == texts(manifest.tags@),
        registry@.id == registry.id@,
        registry@.name == registry.name@,
        registry@.resource_group == registry.resource_group@,
        registry@.location == registry.location@,
        registry@.login_server == registry.login_server@,
{
}

// ---------------------------------------------------------------------------
// Members
// ---------------------------------------------------------------------------

/// The member of a key is the first that an object has under it, and null
/// where it has none or is no object.
pub proof fn law_a_member_is_the_first_of_its_key(
    fields: Seq<(Seq<char>, JsonView)>,
    key: Seq<char>,
    at: int,
)
    ensures
        0 <= at < fields.len() && fields[at].0 == key && (forall|k: int|
            0 <= k < at ==> (#[trigger] fields[k]).0 != key) ==> JsonView::Object(fields).member(
            key,
        ) == fields[at].1,
        (forall|k: int| 0 <= k < fields.len() ==> (#[trigger] fields[k]).0 != key)
            ==> JsonView::Object(fields).member(key) == JsonView::Null,
        JsonView::Null.member(key) == JsonView::Null,
        JsonView::List(Seq::empty()).member(key) == JsonView::Null,
{
    if 0 <= at < fields.len() && fields[at].0 == key && (forall|k: int|
        0 <= k < at ==> (#[trigger] fields[k]).0 != key) {
        lemma_found_at(fields, key, at);
    }
    if forall|k: int| 0 <= k < fields.len() ==> (#[trigger] fields[k]).0 != key {
        lemma_no_field(fields, key);
    }
}

/// Where the first field of a key is.
pub proof fn lemma_found_at(fields: Seq<(Seq<char>, JsonView)>, key: Seq<char>, at: int)
    requires
        0 <= at < fields.len(),
        fields[at].0 == key,
        forall|k: int| 0 <= k < at ==> (#[trigger] fields[k]).0 != key,
    ensures
        field_at(fields, key) == at,
    decreases at,
{
    if at > 0 {
        assert(fields[0].0 != key);
        assert forall|k: int| 0 <= k < at - 1 implies (#[trigger] fields.skip(1)[k]).0 != key by {
            assert(fields.skip(1)[k] == fields[k + 1]);
        }
        lemma_found_at(fields.skip(1), key, at - 1);
    }
}

/// A moment counted in seconds since 1970, where the calendar has it; nothing
/// of anything else.
pub open spec fn counted_from_1970(value: JsonView, stamp: Option<Timestamp>) -> bool {
    match value {
        JsonView::Number(Some(n)) => if EARLIEST <= n <= LATEST {
            stamp matches Some(stamp) && stamp.seconds == n
        } else {
            stamp is None
        },
        _ => stamp is None,
    }
}

/// A moment that an RFC 3339 text names; nothing of anything else.
pub open spec fn written_as_a_date(value: JsonView, stamp: Option<Timestamp>) -> bool {
    match value {
        JsonView::Text(text) => match rfc3339_seconds(trimmed(text)) {
            Some(n) if trimmed(text).len() > 0 => stamp matches Some(stamp) && stamp.seconds == n,
            Some(_) => stamp is None,
            None => stamp is None,
        },
        _ => stamp is None,
    }
}

/// A text without the blanks round it; an empty one of anything else.
pub open spec fn written_as_text(value: JsonView, text: Seq<char>) -> bool {
    match value {
        JsonView::Text(held) => text =~= trimmed(held),
        _ => text.len() == 0,
    }
}

/// The same; nothing where it is blank or no text.
pub open spec fn written_as_some(value: JsonView, text: Option<String>) -> bool {
    match value {
        JsonView::Text(held) if trimmed(held).len() > 0 => text matches Some(text) && text@
            == trimmed(held),
        _ => text is None,
    }
}

/// A count, as a number or as the digits of one; nothing of anything else, and
/// of one that is too large.
pub open spec fn written_as_a_count(value: JsonView, count: Option<u64>) -> bool {
    match value {
        JsonView::Number(Some(n)) => if 0 <= n <= u64::MAX {
            count matches Some(count) && count == n
        } else {
            count is None
        },
        JsonView::Text(text) => match whole(trimmed(text)) {
            Some(n) => if n <= u64::MAX {
                count matches Some(count) && count == n
            } else {
                count is None
            },
            None => count is None,
        },
        _ => count is None,
    }
}

/// Each field of a secret's row comes from its own member of the entry: the
/// name from the end of `id`, the stamps from `created`, `updated`, `exp` and
/// `nbf` of the attributes. A secret is enabled and unmanaged where nothing
/// says otherwise.
pub proof fn law_a_secrets_fields_come_from_their_own_members(
    vault: Seq<char>,
    entry: JsonView,
    row: SecretRow,
)
    requires
        row_in(vault, entry) == Some(row@),
    ensures
        row.vault@ == vault,
        entry.member("id"@) matches JsonView::Text(id) && row.name@ == after_last(trimmed(id), '/'),
        row.name@.len() > 0,
        counted_from_1970(entry.member("attributes"@).member("created"@), row.created),
        counted_from_1970(entry.member("attributes"@).member("updated"@), row.updated),
        counted_from_1970(entry.member("attributes"@).member("exp"@), row.expires),
        counted_from_1970(entry.member("attributes"@).member("nbf"@), row.not_before),
        row.enabled <==> entry.member("attributes"@).member("enabled"@) != JsonView::Bool(false),
        row.managed <==> entry.member("managed"@) == JsonView::Bool(true),
        written_as_some(entry.member("contentType"@), row.content_type),
{
}

/// So does each field of a version.
pub proof fn law_a_versions_fields_come_from_their_own_members(
    entry: JsonView,
    version: SecretVersion,
)
    requires
        version_in(entry) == Some(version@),
    ensures
        entry.member("id"@) matches JsonView::Text(id) && version.version@ == after_last(
            trimmed(id),
            '/',
        ),
        version.version@.len() > 0,
        counted_from_1970(entry.member("attributes"@).member("created"@), version.created),
        counted_from_1970(entry.member("attributes"@).member("updated"@), version.updated),
        counted_from_1970(entry.member("attributes"@).member("exp"@), version.expires),
        version.enabled <==> entry.member("attributes"@).member("enabled"@) != JsonView::Bool(
            false,
        ),
{
}

/// So does each field of a tag.
pub proof fn law_a_tags_fields_come_from_their_own_members(entry: JsonView, tag: Tag)
    requires
        tag_in(entry) == Some(tag@),
    ensures
        entry.member("name"@) matches JsonView::Text(name) && tag.name@ == trimmed(name),
        tag.name@.len() > 0,
        written_as_text(entry.member("digest"@), tag.digest@),
        written_as_date_of(entry, "createdTime"@, tag.created),
        written_as_date_of(entry, "lastUpdateTime"@, tag.updated),
{
}

/// A member that is a date.
pub open spec fn written_as_date_of(
    entry: JsonView,
    key: Seq<char>,
    stamp: Option<Timestamp>,
) -> bool {
    written_as_a_date(entry.member(key), stamp)
}

/// So does each field of a repository, whose name is the one asked for where
/// the answer has none.
pub proof fn law_a_repositorys_fields_come_from_their_own_members(
    registry: Seq<char>,
    name: Seq<char>,
    answer: JsonView,
    row: Repository,
)
    requires
        repository_in(registry, name, answer) == row@,
    ensures
        row.registry@ == registry,
        answer.member("imageName"@) is Null ==> row.name@ == name,
        answer.member("imageName"@) matches JsonView::Text(held) && trimmed(held).len() > 0
            ==> row.name@ == trimmed(answer.member("imageName"@)->Text_0),
        written_as_a_count(answer.member("tagCount"@), row.tag_count),
        written_as_a_count(answer.member("manifestCount"@), row.manifest_count),
        written_as_date_of(answer, "createdTime"@, row.created),
        written_as_date_of(answer, "lastUpdateTime"@, row.updated),
{
}

/// So does each field of a manifest, which stands in the answer's `manifest`
/// where it has one.
pub proof fn law_a_manifests_fields_come_from_their_own_members(
    digest: Seq<char>,
    answer: JsonView,
    manifest: Manifest,
)
    requires
        manifest_in(digest, answer) == manifest@,
    ensures
        ({
            let held = if answer.member("manifest"@) is Object {
                answer.member("manifest"@)
            } else {
                answer
            };
            &&& held.member("digest"@) is Null ==> manifest.digest@ == digest
            &&& forall|text: Seq<char>|
                held.member("digest"@) == JsonView::Text(text) && trimmed(text).len() > 0
                    ==> manifest.digest@ == #[trigger] trimmed(text)
            &&& written_as_a_count(held.member("imageSize"@), manifest.size)
            &&& written_as_some(held.member("architecture"@), manifest.architecture)
            &&& written_as_some(held.member("os"@), manifest.os)
            &&& written_as_date_of(held, "createdTime"@, manifest.created)
            &&& texts(manifest.tags@) == super::acr::some_texts(held.member("tags"@).items())
        }),
{
}

/// So does each field of a vault and of a registry.
pub proof fn law_a_resources_fields_come_from_their_own_members(
    row: JsonView,
    vault: Vault,
    registry: Registry,
)
    ensures
        vault_in(row) == vault@ ==> {
            &&& written_as_text(row.member("id"@), vault.id@)
            &&& written_as_text(row.member("name"@), vault.name@)
            &&& written_as_text(row.member("resourceGroup"@), vault.resource_group@)
            &&& written_as_text(row.member("location"@), vault.location@)
            &&& written_as_text(row.member("vaultUri"@), vault.uri@)
        },
        registry_in(row) == registry@ ==> {
            &&& written_as_text(row.member("id"@), registry.id@)
            &&& written_as_text(row.member("name"@), registry.name@)
            &&& written_as_text(row.member("resourceGroup"@), registry.resource_group@)
            &&& written_as_text(row.member("location"@), registry.location@)
            &&& written_as_text(row.member("loginServer"@), registry.login_server@)
        },
{
}

// ---------------------------------------------------------------------------
// Requests
// ---------------------------------------------------------------------------

/// What was asked last, and what was answered.
pub open spec fn last_answered(client: ClientView, document: JsonView) -> bool {
    &&& client.requests.len() > 0
    &&& (client.world.replies)((client.requests.len() - 1) as nat, client.requests.last()) matches Ok(
        response,
    ) && 200 <= response.status < 300 && json_of(response.body) == Ok::<JsonView, Seq<char>>(
        document,
    )
}

/// A document that a call gives is the answer to the request it sent last,
/// which is the one it was given, signed.
pub proof fn law_an_answer_is_to_the_last_request(
    client: ClientView,
    audience: AudienceView,
    request: RequestView,
)
    ensures
        ({
            let (then, answer) = client.called(audience, request);
            answer matches Ok(document) ==> {
                &&& last_answered(then, document)
                &&& then.requests.last().method == request.method
                &&& then.requests.last().url == request.url
                &&& then.requests.last().body == request.body
                &&& then.requests.last().bearer is Some
            }
        }),
{
    reveal(ClientView::called);
    let (signed, token) = client.token_of(audience);
    if let Ok(token) = token {
        lemma_attempt(signed, request.signed(token));
    }
    let (one, first) = client.tried(audience, request);
    let (two, again) = one.forgetting(audience).token_of(audience);
    if let Ok(token) = again {
        lemma_attempt(two, request.signed(token));
    }
}

proof fn lemma_attempt(client: ClientView, request: RequestView)
    ensures
        ({
            let (then, answer) = client.attempted(request);
            answer matches Ok(document) ==> last_answered(then, document) && then.requests.last()
                == request
        }),
{
    reveal(ClientView::attempted);
    let (one, first) = client.sent(request);
    assert(one.requests.last() == request);
    if let Ok(response) = first {
        let (two, second) = one.waited(response).sent(request);
        assert(two.requests.last() == request);
    }
}

/// A value is asked for by its name and its version, where one is given, of
/// the vault that is given, and by nothing else. What comes back is the value
/// and the version that the answer to the last request holds.
pub proof fn law_a_value_is_asked_for_by_its_version(
    client: ClientView,
    vault: VaultView,
    name: Seq<char>,
    version: Option<Seq<char>>,
)
    ensures
        ({
            let (then, read) = client.value_read(vault, name, version);
            let head = without_trailing(vault.uri, '/') + "/secrets/"@ + escaped(name);
            let url = match version {
                Some(version) => head + "/"@ + escaped(version) + "?api-version=7.4"@,
                None => head + "?api-version=7.4"@,
            };
            &&& goes_on(client, then)
            &&& forall|i: int|
                client.requests.len() <= i < then.requests.len() ==> {
                    &&& (#[trigger] then.requests[i]).method == Method::Get
                    &&& then.requests[i].url == url
                    &&& then.requests[i].body == BodyView::Empty
                    &&& then.requests[i].bearer is Some
                }
            &&& read matches Ok(held) ==> {
                &&& client.requests.len() < then.requests.len()
                &&& exists|document: JsonView|
                    #![trigger last_answered(then, document)]
                    {
                        &&& last_answered(then, document)
                        &&& document.member("value"@) == JsonView::Text(held.0)
                        &&& forall|id: Seq<char>|
                            document.member("id"@) == JsonView::Text(id) && (#[trigger] trimmed(
                                id,
                            )).len() > 0 ==> held.1 == after_last(trimmed(id), '/')
                    }
            }
        }),
{
    let head = without_trailing(vault.uri, '/') + "/secrets/"@ + escaped(name);
    let url = match version {
        Some(version) => head + "/"@ + escaped(version) + "?api-version=7.4"@,
        None => head + "?api-version=7.4"@,
    };
    assert("/secrets/"@ =~= "/"@ + "secrets/"@) by {
        reveal_strlit("/secrets/");
        reveal_strlit("secrets/");
        reveal_strlit("/");
    }
    lemma_under_a_base(vault.uri, "secrets/"@, "/secrets/"@);
    assert(super::vault::value_url(vault.uri, name, version) =~= url);
    let request = RequestView::get(url);
    law_a_spent_token_is_worth_one_more(client, AudienceView::Vault, request);
    law_an_answer_is_to_the_last_request(client, AudienceView::Vault, request);
    lemma_one_is_sent(client, AudienceView::Vault, request);
    let (then, answer) = client.called(AudienceView::Vault, request);
    if let Ok(document) = answer {
        assert(last_answered(then, document));
    }
}

/// A call that is answered has sent something.
pub proof fn lemma_one_is_sent(client: ClientView, audience: AudienceView, request: RequestView)
    requires
        !(audience is Acr),
    ensures
        ({
            let (then, answer) = client.called(audience, request);
            answer is Ok ==> client.requests.len() < then.requests.len()
        }),
{
    reveal(ClientView::called);
    reveal(ClientView::token_of);
    reveal(ClientView::forgetting);
    super::promises::law_a_token_is_minted_once(client, audience);
    let (signed, token) = client.token_of(audience);
    if let Ok(token) = token {
        law_a_throttle_is_waited_out_once(signed, request.signed(token));
    }
    let (one, first) = client.tried(audience, request);
    let forgot = one.forgetting(audience);
    super::promises::law_a_token_is_minted_once(forgot, audience);
    let (two, again) = forgot.token_of(audience);
    if let Ok(token) = again {
        law_a_throttle_is_waited_out_once(two, request.signed(token));
    }
}

/// Two spellings of what stands under a base.
proof fn lemma_under_a_base(uri: Seq<char>, short: Seq<char>, long: Seq<char>)
    requires
        long == "/"@ + short,
    ensures
        super::vault::base_of(uri) + short == without_trailing(uri, '/') + long,
{
    assert(super::vault::base_of(uri) + short =~= without_trailing(uri, '/') + long);
}

/// The first request of a listing of a vault's secrets is for the first page
/// of that vault's, and every row that comes of it is that vault's.
pub proof fn law_a_vaults_secrets_are_asked_of_it(client: ClientView, vault: Vault, left: nat)
    ensures
        ({
            let (then, listing) = client.secrets_listed(
                vault@,
                Some(secrets_url(vault.uri@)),
                Seq::empty(),
                left,
            );
            &&& goes_on(client, then)
            &&& then.requests.len() > client.requests.len() ==> {
                let first = then.requests[client.requests.len() as int];
                &&& first.method == Method::Get
                &&& first.url == without_trailing(vault.uri@, '/')
                    + "/secrets?api-version=7.4&maxresults=25"@
                &&& first.bearer is Some
            }
            &&& listing matches Ok(rows) ==> {
                &&& client.requests.len() < then.requests.len()
                &&& forall|i: int| 0 <= i < rows.len() ==> (#[trigger] rows[i]).vault == vault.name@
            }
        }),
{
    assert("/secrets?api-version=7.4&maxresults=25"@ =~= "/"@
        + "secrets?api-version=7.4&maxresults=25"@) by {
        reveal_strlit("/secrets?api-version=7.4&maxresults=25");
        reveal_strlit("secrets?api-version=7.4&maxresults=25");
        reveal_strlit("/");
    }
    lemma_under_a_base(
        vault.uri@,
        "secrets?api-version=7.4&maxresults=25"@,
        "/secrets?api-version=7.4&maxresults=25"@,
    );
    lemma_secrets_listed(client, vault@, secrets_url(vault.uri@), Seq::empty(), left);
}

/// Every row among the entries of a page is of the vault the page is of.
proof fn lemma_rows_in(vault: Seq<char>, entries: Seq<JsonView>)
    ensures
        forall|i: int|
            0 <= i < rows_in(vault, entries).len() ==> (#[trigger] rows_in(vault, entries)[i]).vault
                == vault,
    decreases entries.len(),
{
    if entries.len() > 0 {
        lemma_rows_in(vault, entries.drop_last());
    }
}

/// A listing goes on from a page, and gives rows of its vault.
pub proof fn lemma_secrets_listed(
    client: ClientView,
    vault: VaultView,
    url: Seq<char>,
    rows: Seq<SecretRowView>,
    left: nat,
)
    requires
        forall|i: int| 0 <= i < rows.len() ==> (#[trigger] rows[i]).vault == vault.name,
    ensures
        ({
            let (then, listing) = client.secrets_listed(vault, Some(url), rows, left);
            &&& goes_on(client, then)
            &&& then.requests.len() > client.requests.len() ==> {
                let first = then.requests[client.requests.len() as int];
                first.method == Method::Get && first.url == url && first.bearer is Some
            }
            &&& listing matches Ok(all) ==> {
                &&& client.requests.len() < then.requests.len()
                &&& forall|i: int| 0 <= i < all.len() ==> (#[trigger] all[i]).vault == vault.name
            }
        }),
    decreases left,
{
    let (then, listing) = client.secrets_listed(vault, Some(url), rows, left);
    if left > 0 {
        let request = RequestView::get(url);
        law_a_spent_token_is_worth_one_more(client, AudienceView::Vault, request);
        lemma_one_is_sent(client, AudienceView::Vault, request);
        let (one, answer) = client.called(AudienceView::Vault, request);
        assert(all_signed(one.requests, client.requests.len() as int, request));
        if one.requests.len() > client.requests.len() {
            assert(one.requests[client.requests.len() as int].url == url);
        }
        if let Ok(page) = answer {
            let entries = page.member("value"@).items();
            lemma_rows_in(vault.name, entries);
            let more = rows + rows_in(vault.name, entries);
            assert forall|i: int| 0 <= i < more.len() implies (#[trigger] more[i]).vault
                == vault.name by {
                if i >= rows.len() {
                    assert(more[i] == rows_in(vault.name, entries)[i - rows.len()]);
                }
            }
            let next = page.member("nextLink"@).some_text();
            assert((then, listing) == one.secrets_listed(vault, next, more, (left - 1) as nat));
            if next is None {
                assert(one.secrets_listed(vault, None, more, (left - 1) as nat) == (
                    one,
                    Ok::<Seq<SecretRowView>, super::failure::FailureView>(more),
                ));
            }
            if let Some(next) = next {
                lemma_secrets_listed(one, vault, next, more, (left - 1) as nat);
                lemma_goes_on(client, one, then);
                assert(then.requests[client.requests.len() as int]
                    == one.requests[client.requests.len() as int]);
            }
        }
    }
}

/// A repository is asked for of the registry that is given, by its name, and
/// its fields are those of the answer.
pub proof fn law_a_repository_is_asked_for_by_its_name(
    client: ClientView,
    registry: Registry,
    name: Seq<char>,
)
    ensures
        ({
            let (then, read) = client.attributes_read(registry@, name);
            read matches Ok(row) ==> {
                let last = then.requests.last();
                &&& last.method == Method::Get
                &&& last.url == "https://"@ + registry.login_server@ + "/acr/v1/"@ + path_text(name)
                &&& exists|answer: JsonView|
                    #![trigger last_answered(then, answer)]
                    last_answered(then, answer) && row == repository_in(registry.name@, name, answer)
            }
        }),
{
    let url = "https://"@ + registry.login_server@ + "/acr/v1/"@ + path_text(name);
    let audience = repository_audience(registry.login_server@, name);
    law_an_answer_is_to_the_last_request(client, audience, RequestView::get(url));
    let (then, answer) = client.called(audience, RequestView::get(url));
    if let Ok(answer) = answer {
        assert(last_answered(then, answer));
    }
}

/// A manifest is asked for of the repository that is given, by its digest.
pub proof fn law_a_manifest_is_asked_for_by_its_digest(
    client: ClientView,
    registry: Registry,
    repo: Seq<char>,
    digest: Seq<char>,
)
    ensures
        ({
            let (then, read) = client.manifest_read(registry@, repo, digest);
            read matches Ok(manifest) ==> {
                let last = then.requests.last();
                &&& last.method == Method::Get
                &&& last.url == "https://"@ + registry.login_server@ + "/acr/v1/"@ + path_text(repo)
                    + "/_manifests/"@ + digest
                &&& exists|answer: JsonView|
                    #![trigger last_answered(then, answer)]
                    last_answered(then, answer) && manifest == manifest_in(digest, answer)
            }
        }),
{
    let url = "https://"@ + registry.login_server@ + "/acr/v1/"@ + path_text(repo)
        + "/_manifests/"@ + digest;
    let audience = repository_audience(registry.login_server@, repo);
    law_an_answer_is_to_the_last_request(client, audience, RequestView::get(url));
    let (then, answer) = client.called(audience, RequestView::get(url));
    if let Ok(answer) = answer {
        assert(last_answered(then, answer));
    }
}

/// Whether a text begins with another.
pub open spec fn headed(text: Seq<char>, head: Seq<char>) -> bool {
    head.len() <= text.len() && text.take(head.len() as int) == head
}

/// Whether a text ends in another.
pub open spec fn ended(text: Seq<char>, tail: Seq<char>) -> bool {
    tail.len() <= text.len() && text.skip(text.len() - tail.len()) == tail
}

/// A listing of tags ends with a page of the tags of the repository that is
/// given, newest first, and ends with the tags of that page, which is a short
/// one or one that did not go on from the page before.
pub proof fn law_tags_are_asked_for_by_their_repository(
    client: ClientView,
    registry: RegistryView,
    repo: Seq<char>,
    last: Option<Seq<char>>,
    tags: Seq<super::TagView>,
    left: nat,
)
    ensures
        ({
            let (then, listing) = client.tags_listed(registry, repo, last, tags, left);
            listing matches Ok(all) ==> {
                let asked = then.requests.last();
                &&& asked.method == Method::Get
                &&& headed(
                    asked.url,
                    "https://"@ + registry.login_server + "/acr/v1/"@ + path_text(repo)
                        + "/_tags?n=100&orderby=timedesc"@,
                )
                &&& tags.is_prefix_of(all)
                &&& exists|page: JsonView|
                    #![trigger last_answered(then, page)]
                    {
                        let listed = super::acr::tags_in(page.member("tags"@).items());
                        &&& last_answered(then, page)
                        &&& listed.is_suffix_of(all)
                        &&& listed.len() < 100 || ended(
                            asked.url,
                            "&last="@ + escaped(listed.last().name),
                        )
                    }
            }
        }),
    decreases left,
{
    if left > 0 {
        let head = "https://"@ + registry.login_server + "/acr/v1/"@ + path_text(repo)
            + "/_tags?n=100&orderby=timedesc"@;
        let url = super::acr::tags_url_text(registry.login_server, repo, last);
        let audience = repository_audience(registry.login_server, repo);
        law_an_answer_is_to_the_last_request(client, audience, RequestView::get(url));
        let (one, answer) = client.called(audience, RequestView::get(url));
        assert(url.take(head.len() as int) =~= head);
        if let Ok(page) = answer {
            let listed = super::acr::tags_in(page.member("tags"@).items());
            let next = super::acr::last_tag(listed);
            assert(last_answered(one, page));
            if super::acr::is_the_end(listed.len() as int, next, last) {
                let all = tags + listed;
                assert(tags =~= all.subrange(0, tags.len() as int));
                assert(listed =~= all.subrange(all.len() - listed.len(), all.len() as int));
                if let Some(last) = last {
                    let tail = "&last="@ + escaped(last);
                    assert(url.skip(url.len() - tail.len()) =~= tail);
                }
            } else {
                law_tags_are_asked_for_by_their_repository(
                    one,
                    registry,
                    repo,
                    next,
                    tags + listed,
                    (left - 1) as nat,
                );
                let (then, listing) = client.tags_listed(registry, repo, last, tags, left);
                if let Ok(all) = listing {
                    let more = tags + listed;
                    assert(more =~= all.subrange(0, more.len() as int));
                    assert(tags =~= all.subrange(0, tags.len() as int)) by {
                        assert forall|i: int| 0 <= i < tags.len() implies tags[i] == all[i] by {
                            assert(more[i] == all.subrange(0, more.len() as int)[i]);
                        }
                    }
                }
            }
        }
    }
}

/// A listing of a registry's catalog ends with a page of that registry's, and
/// with the names on it.
pub proof fn law_a_catalog_is_asked_of_its_registry(
    client: ClientView,
    registry: Registry,
    last: Option<Seq<char>>,
    names: Seq<Seq<char>>,
    left: nat,
)
    ensures
        ({
            let (then, listing) = client.catalog_listed(registry@, last, names, left);
            listing matches Ok(all) ==> {
                let asked = then.requests.last();
                &&& asked.method == Method::Get
                &&& headed(
                    asked.url,
                    "https://"@ + registry.login_server@ + "/acr/v1/_catalog?n=100"@,
                )
                &&& names.is_prefix_of(all)
                &&& exists|page: JsonView|
                    #![trigger last_answered(then, page)]
                    {
                        let listed = super::acr::some_texts(page.member("repositories"@).items());
                        &&& last_answered(then, page)
                        &&& listed.is_suffix_of(all)
                        &&& listed.len() < 100 || ended(
                            asked.url,
                            "&last="@ + escaped(listed.last()),
                        )
                    }
            }
        }),
    decreases left,
{
    if left > 0 {
        let head = "https://"@ + registry.login_server@ + "/acr/v1/_catalog?n=100"@;
        let url = super::acr::catalog_url(registry.login_server@, last);
        let audience = catalog_audience(registry.login_server@);
        law_an_answer_is_to_the_last_request(client, audience, RequestView::get(url));
        let (one, answer) = client.called(audience, RequestView::get(url));
        assert(url.take(head.len() as int) =~= head);
        if let Ok(page) = answer {
            let listed = super::acr::some_texts(page.member("repositories"@).items());
            let next = super::acr::last_text(listed);
            assert(last_answered(one, page));
            if super::acr::is_the_end(listed.len() as int, next, last) {
                let all = names + listed;
                assert(names =~= all.subrange(0, names.len() as int));
                assert(listed =~= all.subrange(all.len() - listed.len(), all.len() as int));
                if let Some(last) = last {
                    let tail = "&last="@ + escaped(last);
                    assert(url.skip(url.len() - tail.len()) =~= tail);
                }
            } else {
                law_a_catalog_is_asked_of_its_registry(
                    one,
                    registry,
                    next,
                    names + listed,
                    (left - 1) as nat,
                );
                let (then, listing) = client.catalog_listed(registry@, last, names, left);
                if let Ok(all) = listing {
                    let more = names + listed;
                    assert(more =~= all.subrange(0, more.len() as int));
                    assert(names =~= all.subrange(0, names.len() as int)) by {
                        assert forall|i: int| 0 <= i < names.len() implies names[i] == all[i] by {
                            assert(more[i] == all.subrange(0, more.len() as int)[i]);
                        }
                    }
                }
            }
        }
    }
}

/// A listing of secrets keeps what it had, and goes on until a page has no next
/// one: it ends with the rows of that page.
pub proof fn law_a_listing_goes_on_to_its_last_page(
    client: ClientView,
    vault: VaultView,
    url: Seq<char>,
    rows: Seq<SecretRowView>,
    left: nat,
)
    ensures
        ({
            let (then, listing) = client.secrets_listed(vault, Some(url), rows, left);
            listing matches Ok(all) ==> {
                &&& rows.is_prefix_of(all)
                &&& exists|page: JsonView|
                    #![trigger last_answered(then, page)]
                    {
                        &&& last_answered(then, page)
                        &&& rows_in(vault.name, page.member("value"@).items()).is_suffix_of(all)
                        &&& forall|text: Seq<char>|
                            page.member("nextLink"@) == JsonView::Text(text) ==> (
                            #[trigger] trimmed(text)).len() == 0
                    }
            }
        }),
    decreases left,
{
    let (then, listing) = client.secrets_listed(vault, Some(url), rows, left);
    if left > 0 {
        let request = RequestView::get(url);
        law_an_answer_is_to_the_last_request(client, AudienceView::Vault, request);
        let (one, answer) = client.called(AudienceView::Vault, request);
        if let Ok(page) = answer {
            let listed = rows_in(vault.name, page.member("value"@).items());
            let more = rows + listed;
            let next = page.member("nextLink"@).some_text();
            assert((then, listing) == one.secrets_listed(vault, next, more, (left - 1) as nat));
            if next is None {
                assert(one.secrets_listed(vault, None, more, (left - 1) as nat) == (
                    one,
                    Ok::<Seq<SecretRowView>, super::failure::FailureView>(more),
                ));
                assert(last_answered(one, page));
                assert(rows =~= more.subrange(0, rows.len() as int));
                assert(listed =~= more.subrange(more.len() - listed.len(), more.len() as int));
            }
            if let Some(next) = next {
                law_a_listing_goes_on_to_its_last_page(one, vault, next, more, (left - 1) as nat);
                if let Ok(all) = listing {
                    assert(more =~= all.subrange(0, more.len() as int));
                    assert(rows =~= all.subrange(0, rows.len() as int)) by {
                        assert forall|i: int| 0 <= i < rows.len() implies rows[i] == all[i] by {
                            assert(more[i] == all.subrange(0, more.len() as int)[i]);
                        }
                    }
                }
            }
        }
    }
}

/// A secret's versions are asked of its vault by its name, and the listing goes
/// on until a page has no next one.
pub proof fn law_versions_are_asked_for_by_name(
    client: ClientView,
    vault: VaultView,
    name: Seq<char>,
    left: nat,
)
    ensures
        super::vault::versions_url(vault.uri, name) == without_trailing(vault.uri, '/')
            + "/secrets/"@ + escaped(name) + "/versions?api-version=7.4&maxresults=25"@,
        ({
            let (then, listing) = client.versions_listed(
                vault,
                Some(super::vault::versions_url(vault.uri, name)),
                Seq::empty(),
                left,
            );
            listing matches Ok(all) ==> exists|page: JsonView|
                #![trigger last_answered(then, page)]
                {
                    &&& last_answered(then, page)
                    &&& forall|text: Seq<char>|
                        page.member("nextLink"@) == JsonView::Text(text) ==> (#[trigger] trimmed(
                            text,
                        )).len() == 0
                    &&& forall|version: super::VersionView|
                        super::vault::versions_in(page.member("value"@).items()).contains(version)
                            ==> #[trigger] all.contains(version)
                }
        }),
{
    assert("/secrets/"@ =~= "/"@ + "secrets/"@) by {
        reveal_strlit("/secrets/");
        reveal_strlit("secrets/");
        reveal_strlit("/");
    }
    lemma_under_a_base(vault.uri, "secrets/"@, "/secrets/"@);
    law_a_listing_of_versions_loses_none(
        client,
        vault,
        super::vault::versions_url(vault.uri, name),
        Seq::empty(),
        left,
    );
}

/// A listing of versions loses none of what it had, and goes on to its last
/// page.
pub proof fn law_a_listing_of_versions_loses_none(
    client: ClientView,
    vault: VaultView,
    url: Seq<char>,
    versions: Seq<super::VersionView>,
    left: nat,
)
    ensures
        ({
            let (then, listing) = client.versions_listed(vault, Some(url), versions, left);
            listing matches Ok(all) ==> {
                &&& forall|version: super::VersionView|
                    versions.contains(version) ==> #[trigger] all.contains(version)
                &&& exists|page: JsonView|
                    #![trigger last_answered(then, page)]
                    {
                        &&& last_answered(then, page)
                        &&& forall|text: Seq<char>|
                            page.member("nextLink"@) == JsonView::Text(text) ==> (
                            #[trigger] trimmed(text)).len() == 0
                        &&& forall|version: super::VersionView|
                            super::vault::versions_in(page.member("value"@).items()).contains(
                                version,
                            ) ==> #[trigger] all.contains(version)
                    }
            }
        }),
    decreases left,
{
    let (then, listing) = client.versions_listed(vault, Some(url), versions, left);
    if left > 0 {
        let request = RequestView::get(url);
        law_an_answer_is_to_the_last_request(client, AudienceView::Vault, request);
        let (one, answer) = client.called(AudienceView::Vault, request);
        if let Ok(page) = answer {
            let listed = super::vault::versions_in(page.member("value"@).items());
            let more = versions + listed;
            assert forall|version: super::VersionView|
                versions.contains(version) || listed.contains(version) implies #[trigger] more.contains(
                version,
            ) by {
                if versions.contains(version) {
                    assert(more[versions.index_of(version)] == version);
                } else {
                    assert(more[versions.len() + listed.index_of(version)] == version);
                }
            }
            let next = page.member("nextLink"@).some_text();
            assert((then, listing) == one.versions_listed(vault, next, more, (left - 1) as nat));
            if next is None {
                let all = super::vault::newest_first(more);
                assert(one.versions_listed(vault, None, more, (left - 1) as nat) == (
                    one,
                    Ok::<Seq<super::VersionView>, super::failure::FailureView>(all),
                ));
                super::vault::law_versions_come_newest_first(more);
                assert forall|version: super::VersionView| more.contains(
                    version,
                ) implies #[trigger] all.contains(version) by {
                    more.to_multiset_ensures();
                    all.to_multiset_ensures();
                    assert(more.to_multiset().count(version) > 0);
                    assert(all.to_multiset().count(version) > 0);
                }
                assert(last_answered(one, page));
            }
            if let Some(next) = next {
                law_a_listing_of_versions_loses_none(one, vault, next, more, (left - 1) as nat);
            }
        }
    }
}

/// The inventory is asked of Resource Graph, for the subscriptions that are
/// configured, and the asking goes on until a page names no next one.
pub proof fn law_the_inventory_is_asked_to_its_end(
    client: ClientView,
    azure: crate::config::AzureView,
    skip: Option<Seq<char>>,
    found: super::InventoryView,
    truncated: bool,
    left: nat,
)
    ensures
        ({
            let (then, listing) = client.inventoried(azure, skip, found, truncated, left);
            listing is Ok ==> {
                let last = then.requests.last();
                &&& last.method == Method::Post
                &&& last.url
                    == "https://management.azure.com/providers/Microsoft.ResourceGraph/resources?api-version=2024-04-01"@
                &&& last.body is Json
                &&& exists|page: JsonView, before: Option<Seq<char>>|
                    #![trigger last_answered(then, page), super::graph::body_of(azure.subscriptions, before)]
                    {
                        &&& last_answered(then, page)
                        &&& last.body == BodyView::Json(
                            super::graph::body_of(azure.subscriptions, before),
                        )
                        &&& page.member("$skipToken"@).some_text() is None || page.member(
                            "$skipToken"@,
                        ).some_text() == before
                    }
            }
        }),
    decreases left,
{
    if left > 0 {
        let request = RequestView::post_json(
            super::graph::URL@,
            super::graph::body_of(azure.subscriptions, skip),
        );
        law_an_answer_is_to_the_last_request(client, AudienceView::Arm, request);
        let (one, answer) = client.called(AudienceView::Arm, request);
        if let Ok(page) = answer {
            assert(last_answered(one, page));
            let rows = page.member("data"@).items();
            let more = super::InventoryView {
                vaults: found.vaults + super::graph::vaults_in(rows),
                registries: found.registries + super::graph::registries_in(rows),
            };
            let next = page.member("$skipToken"@).some_text();
            let cut = truncated || super::graph::is_truncated(page);
            if !(next is None || next == skip) {
                law_the_inventory_is_asked_to_its_end(one, azure, next, more, cut, (left - 1) as nat);
            }
        }
    }
}

/// What the inventory has found stays, and what each page has is put behind it;
/// without an allowlist nothing is left out.
pub proof fn law_the_inventory_keeps_what_it_found(
    client: ClientView,
    azure: crate::config::AzureView,
    skip: Option<Seq<char>>,
    found: super::InventoryView,
    truncated: bool,
    left: nat,
)
    requires
        azure.vaults.len() == 0,
        azure.registries.len() == 0,
    ensures
        ({
            let (then, listing) = client.inventoried(azure, skip, found, truncated, left);
            listing matches Ok(inventory) ==> {
                &&& !truncated
                &&& found.vaults.is_prefix_of(inventory.vaults)
                &&& found.registries.is_prefix_of(inventory.registries)
                &&& exists|page: JsonView|
                    #![trigger last_answered(then, page)]
                    {
                        let rows = page.member("data"@).items();
                        &&& last_answered(then, page)
                        &&& super::graph::vaults_in(rows).is_suffix_of(inventory.vaults)
                        &&& super::graph::registries_in(rows).is_suffix_of(inventory.registries)
                    }
            }
        }),
    decreases left,
{
    if left > 0 {
        let request = RequestView::post_json(
            super::graph::URL@,
            super::graph::body_of(azure.subscriptions, skip),
        );
        law_an_answer_is_to_the_last_request(client, AudienceView::Arm, request);
        let (one, answer) = client.called(AudienceView::Arm, request);
        if let Ok(page) = answer {
            assert(last_answered(one, page));
            let rows = page.member("data"@).items();
            let more = super::InventoryView {
                vaults: found.vaults + super::graph::vaults_in(rows),
                registries: found.registries + super::graph::registries_in(rows),
            };
            assert(found.vaults.is_prefix_of(more.vaults));
            assert(found.registries.is_prefix_of(more.registries));
            assert(super::graph::vaults_in(rows).is_suffix_of(more.vaults));
            assert(super::graph::registries_in(rows).is_suffix_of(more.registries));
            let next = page.member("$skipToken"@).some_text();
            let cut = truncated || super::graph::is_truncated(page);
            if !(next is None || next == skip) {
                law_the_inventory_keeps_what_it_found(one, azure, next, more, cut, (left - 1) as nat);
                let (then, listing) = client.inventoried(azure, skip, found, truncated, left);
                if let Ok(inventory) = listing {
                    lemma_prefix_of_prefix(found.vaults, more.vaults, inventory.vaults);
                    lemma_prefix_of_prefix(found.registries, more.registries, inventory.registries);
                }
            }
        }
    }
}

proof fn lemma_prefix_of_prefix<T>(a: Seq<T>, b: Seq<T>, c: Seq<T>)
    requires
        a.is_prefix_of(b),
        b.is_prefix_of(c),
    ensures
        a.is_prefix_of(c),
{
    assert forall|i: int| 0 <= i < a.len() implies a[i] == c[i] by {
        assert(a[i] == b.subrange(0, a.len() as int)[i]);
        assert(b[i] == c.subrange(0, b.len() as int)[i]);
    }
    assert(a =~= c.subrange(0, a.len() as int));
}

proof fn lemma_inserted_has<V>(list: Seq<V>, item: V, ahead: spec_fn(V, V) -> bool, held: V)
    ensures
        super::vault::inserted(list, item, ahead).contains(held) <==> held == item
            || list.contains(held),
    decreases list.len(),
{
    let then = super::vault::inserted(list, item, ahead);
    if list.len() == 0 || !ahead(item, list.last()) {
        assert(then =~= list.push(item));
        assert(then[list.len() as int] == item);
        if list.contains(held) {
            assert(then[list.index_of(held)] == held);
        }
        if then.contains(held) {
            let i = then.index_of(held);
            if i < list.len() {
                assert(list[i] == held);
            }
        }
    } else {
        let rest = list.drop_last();
        let before = super::vault::inserted(rest, item, ahead);
        lemma_inserted_has(rest, item, ahead, held);
        assert(then =~= before.push(list.last()));
        assert(list[list.len() - 1] == list.last());
        assert(then[before.len() as int] == list.last());
        if before.contains(held) {
            assert(then[before.index_of(held)] == held);
        }
        if list.contains(held) {
            let i = list.index_of(held);
            if i < rest.len() {
                assert(rest[i] == held);
            }
        }
        if rest.contains(held) {
            assert(list[rest.index_of(held)] == held);
        }
        if then.contains(held) {
            let i = then.index_of(held);
            if i < before.len() {
                assert(before[i] == held);
            }
        }
    }
}

proof fn lemma_ordered_has<V>(list: Seq<V>, ahead: spec_fn(V, V) -> bool, held: V)
    ensures
        super::vault::ordered(list, ahead).contains(held) <==> list.contains(held),
    decreases list.len(),
{
    if list.len() > 0 {
        let rest = list.drop_last();
        lemma_ordered_has(rest, ahead, held);
        lemma_inserted_has(super::vault::ordered(rest, ahead), list.last(), ahead, held);
        assert(list[list.len() - 1] == list.last());
        if list.contains(held) {
            let i = list.index_of(held);
            if i < rest.len() {
                assert(rest[i] == held);
            }
        }
        if rest.contains(held) {
            assert(list[rest.index_of(held)] == held);
        }
    }
}

/// A secret's tags are those of the entry, each key with its own value, and no
/// others.
pub proof fn law_a_secrets_tags_are_the_entrys(
    vault: Seq<char>,
    entry: JsonView,
    row: SecretRow,
    key: Seq<char>,
    value: Seq<char>,
)
    requires
        row_in(vault, entry) == Some(row@),
    ensures
        (exists|i: int|
            0 <= i < row.tags@.len() && (#[trigger] row.tags@[i]).0@ == key && row.tags@[i].1@
                == value) <==> exists|k: int|
            0 <= k < entry.member("tags"@).fields().len() && (#[trigger] entry.member(
                "tags"@,
            ).fields()[k]).0 == key && match entry.member("tags"@).fields()[k].1 {
                JsonView::Text(text) => text == value,
                _ => value.len() == 0,
            },
{
    let fields = entry.member("tags"@).fields();
    let tags = super::vault::tags_in(fields);
    let ahead = |a: (Seq<char>, Seq<char>), b: (Seq<char>, Seq<char>)|
        super::vault::tag_ahead(a, b);
    let held = (key, value);
    let said = pairs(row.tags@);
    assert(said == super::vault::ordered(tags, ahead));
    lemma_ordered_has(tags, ahead, held);
    if exists|i: int|
        0 <= i < row.tags@.len() && (#[trigger] row.tags@[i]).0@ == key && row.tags@[i].1@ == value {
        let i = choose|i: int|
            0 <= i < row.tags@.len() && (#[trigger] row.tags@[i]).0@ == key && row.tags@[i].1@
                == value;
        assert(said[i] == held);
        assert(tags.contains(held));
        let k = tags.index_of(held);
        assert(fields[k].0 == key);
    }
    if exists|k: int|
        0 <= k < fields.len() && (#[trigger] fields[k]).0 == key && match fields[k].1 {
            JsonView::Text(text) => text == value,
            _ => value.len() == 0,
        } {
        let k = choose|k: int|
            0 <= k < fields.len() && (#[trigger] fields[k]).0 == key && match fields[k].1 {
                JsonView::Text(text) => text == value,
                _ => value.len() == 0,
            };
        assert(tags[k].1 =~= value);
        assert(tags[k] == held);
        assert(said.contains(held));
        let i = said.index_of(held);
        assert(row.tags@[i].0@ == key);
    }
}

/// The texts of a list are those of its items that are texts and not blank,
/// without the blanks round them.
pub proof fn law_a_lists_texts_are_those_that_are_there(values: Seq<JsonView>, text: Seq<char>)
    ensures
        super::acr::some_texts(values).contains(text) <==> text.len() > 0 && exists|i: int|
            0 <= i < values.len() && #[trigger] is_trimmed_to(values[i], text),
    decreases values.len(),
{
    if values.len() > 0 {
        let before = values.drop_last();
        let end = values.len() - 1;
        law_a_lists_texts_are_those_that_are_there(before, text);
        let (now, was) = (super::acr::some_texts(values), super::acr::some_texts(before));
        assert(values[end] == values.last());
        if was.contains(text) {
            assert(now[was.index_of(text)] == text);
            let i = choose|i: int|
                0 <= i < before.len() && #[trigger] is_trimmed_to(before[i], text);
            assert(is_trimmed_to(values[i], text));
        }
        if now.contains(text) {
            let k = now.index_of(text);
            if k < was.len() {
                assert(was[k] == text);
            } else {
                assert(is_trimmed_to(values[end], text));
            }
        }
        if text.len() > 0 && exists|i: int|
            0 <= i < values.len() && #[trigger] is_trimmed_to(values[i], text) {
            let i = choose|i: int|
                0 <= i < values.len() && #[trigger] is_trimmed_to(values[i], text);
            if i < before.len() {
                assert(is_trimmed_to(before[i], text));
                assert(was.contains(text));
                assert(now[was.index_of(text)] == text);
            } else {
                assert(now[now.len() - 1] == text);
            }
        }
    }
}

/// Whether a value is a text that comes to another without the blanks round it.
pub open spec fn is_trimmed_to(value: JsonView, text: Seq<char>) -> bool {
    value matches JsonView::Text(held) && trimmed(held) == text
}

} // verus!
