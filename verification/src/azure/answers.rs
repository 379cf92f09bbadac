//! What is promised of what Azure says: what a status comes to, how long a
//! throttle is waited out, what the inventory asks for and what it finds.

use vstd::prelude::*;

use super::auth::AudienceView;
use super::graph::{
    body_of, is_registry, is_vault, named, registries_in, registry_in, vault_in, vaults_in,
};
use super::json::{field_at, json_of, lemma_no_field, JsonView};
use super::readings::lemma_found_at;
use super::failure::FailureView;
use super::transport::{
    answer_said, cached_under, exchange_fields, token_fields, BodyView, ClientView, Method, RequestView,
    ResponseView,
};
use super::vault::{refusal_in, row_in, rows_in, version_in, versions_in};
use super::waits::{retry_said, throttle_said};
use super::write::{keyed, put_field, sooner, written, written_fields, written_items};
use super::{RegistryView, VaultView};
use crate::plain::{
    digits_of, law_digits_spell_their_number, law_the_same_name_has_the_same_letters,
    same_letters,
};
use crate::text::{blank, lower, same, trimmed};
use crate::timestamp::Moment;

verus! {

// ---------------------------------------------------------------------------
// Statuses
// ---------------------------------------------------------------------------

/// An answer is a document only where its status says so and its body is one;
/// a status that refuses is told with the body's own words, a spent token as a
/// login that is signed out.
pub proof fn law_an_answer_goes_by_its_status(url: Seq<char>, response: ResponseView)
    ensures
        answer_said(url, response) is Ok <==> {
            &&& 200 <= response.status < 300
            &&& !blank(response.body)
            &&& json_of(response.body) is Ok
        },
        answer_said(url, response) is Ok ==> answer_said(url, response)->Ok_0 == json_of(
            response.body,
        )->Ok_0,
        answer_said(url, response) is Err ==> {
            let cause = answer_said(url, response)->Err_0.cause;
            &&& cause is SignedOut <==> response.status == 401
            &&& cause is Api <==> response.status != 401 && !(200 <= response.status < 300)
            &&& cause is Api ==> cause->Api_0.status == response.status && cause->Api_0.url == url
            &&& !(cause is NoLogin)
        },
        forall|document: JsonView, text: Seq<char>|
            json_of(response.body) == Ok::<JsonView, Seq<char>>(document) && (
            #[trigger] document.member("error"@)).member("message"@) == #[trigger] said_as(text)
                && document.member("error"@).member("details"@) is Null && answer_said(
                url,
                response,
            ) is Err && answer_said(url, response)->Err_0.cause is Api && response.status != 429
                && response.status != 503 ==> answer_said(url, response)->Err_0.cause->Api_0.message
                == text,
{
}

/// A text of a document.
pub open spec fn said_as(text: Seq<char>) -> JsonView {
    JsonView::Text(text)
}

// ---------------------------------------------------------------------------
// Waits
// ---------------------------------------------------------------------------

/// So many nanoseconds, but no less than a second and no more than an hour.
pub open spec fn within_bounds(nanos: int) -> int {
    if nanos < 1_000_000_000 {
        1_000_000_000
    } else if nanos > 3_600_000_000_000 {
        3_600_000_000_000
    } else {
        nanos
    }
}

/// A throttle that names a number of seconds is waited out for as many, kept
/// within the bounds.
pub proof fn law_a_throttle_is_waited_out_as_long_as_it_says(
    header: Seq<char>,
    n: nat,
    now: Moment,
)
    requires
        trimmed(header).len() > 0,
        digits_of(trimmed(header), n),
    ensures
        retry_said(Some(header), now) == within_bounds((n * 1_000_000_000) as int),
{
    let raw = trimmed(header);
    law_digits_spell_their_number(raw, n);
    if raw.len() > 1 && raw[0] == '-' {
        lemma_no_sign(raw, n);
    }
}

proof fn lemma_no_sign(s: Seq<char>, n: nat)
    requires
        s.len() > 0,
        digits_of(s, n),
    ensures
        s[0] != '-',
    decreases s.len(),
{
    if s.len() > 1 {
        lemma_no_sign(s.drop_last(), n / 10);
    }
}

/// The header that is gone by is `Retry-After`, whatever its case, and the
/// other is asked only where there is none.
pub proof fn law_the_first_header_of_its_name_counts(
    name: Seq<char>,
    value: Seq<char>,
    rest: Seq<(Seq<char>, Seq<char>)>,
    now: Moment,
)
    ensures
        same_letters(name, "Retry-After"@) ==> throttle_said(seq![(name, value)] + rest, now)
            == retry_said(Some(value), now),
        throttle_said(Seq::empty(), now) == 30_000_000_000,
{
    let all = seq![(name, value)] + rest;
    law_the_same_name_has_the_same_letters(name, "Retry-After"@);
    assert(all[0] == (name, value));
}

// ---------------------------------------------------------------------------
// Tokens
// ---------------------------------------------------------------------------

/// Each plane has its own audience, and a registry's calls are paid for with a
/// token that was traded for the right thing.
pub proof fn law_each_plane_has_its_own_audience(
    login_server: Seq<char>,
    scope: Seq<char>,
    token: Seq<char>,
    tenant: Option<Seq<char>>,
)
    ensures
        AudienceView::Arm.resource_text() == "https://management.azure.com/"@,
        AudienceView::Vault.resource_text() == "https://vault.azure.net"@,
        AudienceView::ContainerRegistry.resource_text() == "https://containerregistry.azure.net"@,
        exchange_fields(login_server, token, tenant).contains(("service"@, login_server)),
        exchange_fields(login_server, token, tenant).contains(("access_token"@, token)),
        exchange_fields(login_server, token, tenant).contains(("grant_type"@, "access_token"@)),
        tenant is Some ==> exchange_fields(login_server, token, tenant).contains(
            ("tenant"@, tenant->0),
        ),
        exchange_fields(login_server, token, tenant).len() == if tenant is Some {
            4nat
        } else {
            3nat
        },
        token_fields(login_server, scope, token).contains(("service"@, login_server)),
        token_fields(login_server, scope, token).contains(("scope"@, scope)),
        token_fields(login_server, scope, token).contains(("refresh_token"@, token)),
        token_fields(login_server, scope, token).contains(("grant_type"@, "refresh_token"@)),
        token_fields(login_server, scope, token).len() == 4,
{
    let fields = exchange_fields(login_server, token, tenant);
    assert(fields[0] == ("grant_type"@, "access_token"@));
    assert(fields[1] == ("service"@, login_server));
    assert(fields[2] == ("access_token"@, token));
    if let Some(tenant) = tenant {
        assert(fields[3] == ("tenant"@, tenant));
    }
    let pays = token_fields(login_server, scope, token);
    assert(pays[0] == ("grant_type"@, "refresh_token"@));
    assert(pays[1] == ("service"@, login_server));
    assert(pays[2] == ("scope"@, scope));
    assert(pays[3] == ("refresh_token"@, token));
}

// ---------------------------------------------------------------------------
// The inventory
// ---------------------------------------------------------------------------

proof fn lemma_body_keys()
    ensures
        "query"@.len() == 5,
        "options"@.len() == 7,
        "subscriptions"@.len() == 13,
        "$top"@.len() == 4,
        "resultFormat"@.len() == 12,
        "$skipToken"@.len() == 10,
{
    reveal_strlit("query");
    reveal_strlit("options");
    reveal_strlit("subscriptions");
    reveal_strlit("$top");
    reveal_strlit("resultFormat");
    reveal_strlit("$skipToken");
}

/// The inventory is asked of the subscriptions that are named and are not
/// blank, and of all where none is; a page is asked for by the token of the one
/// before it.
pub proof fn law_the_inventory_is_asked_of_the_subscriptions_named(
    subscriptions: Seq<Seq<char>>,
    skip: Option<Seq<char>>,
    name: Seq<char>,
)
    ensures
        ({
            let body = body_of(subscriptions, skip);
            let asked = body.member("subscriptions"@).items();
            &&& asked.contains(JsonView::Text(name)) <==> subscriptions.contains(name) && trimmed(
                name,
            ).len() > 0
            &&& (forall|i: int|
                0 <= i < subscriptions.len() ==> trimmed(#[trigger] subscriptions[i]).len() == 0)
                ==> body.member("subscriptions"@) is Null
            &&& skip is Some ==> body.member("options"@).member("$skipToken"@) == JsonView::Text(
                skip->0,
            )
            &&& skip is None ==> body.member("options"@).member("$skipToken"@) is Null
            &&& body.member("options"@).member("resultFormat"@) == JsonView::Text("objectArray"@)
            &&& body.member("query"@) == JsonView::Text(super::graph::QUERY@)
        }),
{
    lemma_body_keys();
    let body = body_of(subscriptions, skip);
    let fields = body->Object_0;
    let options = super::graph::options_of(skip);
    lemma_found_at(fields, "query"@, 0);
    lemma_found_at(fields, "options"@, 1);
    lemma_found_at(options, "resultFormat"@, 1);
    if skip is Some {
        lemma_found_at(options, "$skipToken"@, 2);
    } else {
        lemma_no_field(options, "$skipToken"@);
    }
    lemma_named(subscriptions, name);
    lemma_none_named(subscriptions);
    if named(subscriptions).len() == 0 {
        lemma_no_field(fields, "subscriptions"@);
        if subscriptions.contains(name) && trimmed(name).len() > 0 {
            assert(named(subscriptions).contains(JsonView::Text(name)));
        }
    } else {
        lemma_found_at(fields, "subscriptions"@, 2);
    }
}

proof fn lemma_named(subscriptions: Seq<Seq<char>>, name: Seq<char>)
    ensures
        named(subscriptions).contains(JsonView::Text(name)) <==> subscriptions.contains(name)
            && trimmed(name).len() > 0,
    decreases subscriptions.len(),
{
    if subscriptions.len() > 0 {
        let before = subscriptions.drop_last();
        let last = subscriptions.last();
        lemma_named(before, name);
        let all = named(subscriptions);
        let first = named(before);
        assert(subscriptions[subscriptions.len() - 1] == last);
        if subscriptions.contains(name) {
            let k = subscriptions.index_of(name);
            if k < before.len() {
                assert(before[k] == name);
            }
        }
        if before.contains(name) {
            let k = before.index_of(name);
            assert(subscriptions[k] == name);
        }
        if first.contains(JsonView::Text(name)) {
            let k = first.index_of(JsonView::Text(name));
            assert(all[k] == first[k]);
        }
        if all.contains(JsonView::Text(name)) {
            let k = all.index_of(JsonView::Text(name));
            if k < first.len() {
                assert(first[k] == all[k]);
            }
        }
        if trimmed(last).len() > 0 {
            assert(all[all.len() - 1] == JsonView::Text(last));
        }
    }
}

proof fn lemma_none_named(subscriptions: Seq<Seq<char>>)
    ensures
        (forall|i: int|
            0 <= i < subscriptions.len() ==> trimmed(#[trigger] subscriptions[i]).len() == 0)
            ==> named(subscriptions).len() == 0,
    decreases subscriptions.len(),
{
    if subscriptions.len() > 0 && (forall|i: int|
        0 <= i < subscriptions.len() ==> trimmed(#[trigger] subscriptions[i]).len() == 0) {
        let before = subscriptions.drop_last();
        assert forall|i: int| 0 <= i < before.len() implies trimmed(#[trigger] before[i]).len()
            == 0 by {
            assert(before[i] == subscriptions[i]);
        }
        lemma_none_named(before);
        assert(trimmed(subscriptions[subscriptions.len() - 1]).len() == 0);
    }
}

proof fn lemma_type_names()
    ensures
        lower("microsoft.keyvault/vaults"@) == "microsoft.keyvault/vaults"@,
        lower("microsoft.containerregistry/registries"@)
            == "microsoft.containerregistry/registries"@,
{
    reveal_strlit("microsoft.keyvault/vaults");
    reveal_strlit("microsoft.containerregistry/registries");
    assert(lower("microsoft.keyvault/vaults"@) =~= "microsoft.keyvault/vaults"@);
    assert(lower("microsoft.containerregistry/registries"@)
        =~= "microsoft.containerregistry/registries"@);
}

/// What a row of the inventory is goes by its type, whatever its case.
pub open spec fn is_typed(row: JsonView, kind: Seq<char>) -> bool {
    row.member("type"@) matches JsonView::Text(held) && same_letters(trimmed(held), kind)
}

proof fn lemma_is_typed(row: JsonView)
    ensures
        is_vault(row) <==> is_typed(row, "microsoft.keyvault/vaults"@),
        is_registry(row) <==> is_typed(row, "microsoft.containerregistry/registries"@),
{
    lemma_type_names();
    reveal_strlit("microsoft.keyvault/vaults");
    reveal_strlit("microsoft.containerregistry/registries");
    let text = row.member("type"@).any_text();
    law_the_same_name_has_the_same_letters(text, "microsoft.keyvault/vaults"@);
    law_the_same_name_has_the_same_letters(text, "microsoft.containerregistry/registries"@);
    if row.member("type"@) is Text {
        assert(text =~= trimmed(row.member("type"@)->Text_0));
    }
}

/// The vaults and the registries of a page are the rows of their types, in the
/// order they came, and no others.
pub proof fn law_the_inventory_goes_by_type(rows: Seq<JsonView>)
    ensures
        vaults_in(rows) == rows.filter(
            |row: JsonView| is_typed(row, "microsoft.keyvault/vaults"@),
        ).map_values(|row: JsonView| vault_in(row)),
        registries_in(rows) == rows.filter(
            |row: JsonView| is_typed(row, "microsoft.containerregistry/registries"@),
        ).map_values(|row: JsonView| registry_in(row)),
    decreases rows.len(),
{
    reveal(Seq::filter);
    let a = |row: JsonView| is_typed(row, "microsoft.keyvault/vaults"@);
    let b = |row: JsonView| is_typed(row, "microsoft.containerregistry/registries"@);
    let f = |row: JsonView| vault_in(row);
    let g = |row: JsonView| registry_in(row);
    if rows.len() == 0 {
        assert(vaults_in(rows) =~= rows.filter(a).map_values(f));
        assert(registries_in(rows) =~= rows.filter(b).map_values(g));
    } else {
        let before = rows.drop_last();
        law_the_inventory_goes_by_type(before);
        lemma_is_typed(rows.last());
        lemma_two_types(rows.last());
        assert(vaults_in(rows) =~= rows.filter(a).map_values(f));
        assert(registries_in(rows) =~= rows.filter(b).map_values(g));
    }
}

proof fn lemma_two_types(row: JsonView)
    ensures
        !(is_vault(row) && is_registry(row)),
{
    reveal_strlit("microsoft.keyvault/vaults");
    reveal_strlit("microsoft.containerregistry/registries");
    assert("microsoft.keyvault/vaults"@.len() != "microsoft.containerregistry/registries"@.len());
}

/// The rows of a page of secrets are its entries that have a name, in the order
/// they came; so are the versions of a page.
pub proof fn law_a_page_is_read_entry_by_entry(vault: Seq<char>, entries: Seq<JsonView>)
    ensures
        rows_in(vault, entries) == entries.filter(
            |entry: JsonView| row_in(vault, entry) is Some,
        ).map_values(|entry: JsonView| row_in(vault, entry)->0),
        versions_in(entries) == entries.filter(
            |entry: JsonView| version_in(entry) is Some,
        ).map_values(|entry: JsonView| version_in(entry)->0),
    decreases entries.len(),
{
    reveal(Seq::filter);
    let a = |entry: JsonView| row_in(vault, entry) is Some;
    let f = |entry: JsonView| row_in(vault, entry)->0;
    let b = |entry: JsonView| version_in(entry) is Some;
    let g = |entry: JsonView| version_in(entry)->0;
    if entries.len() == 0 {
        assert(rows_in(vault, entries) =~= entries.filter(a).map_values(f));
        assert(versions_in(entries) =~= entries.filter(b).map_values(g));
    } else {
        law_a_page_is_read_entry_by_entry(vault, entries.drop_last());
        assert(rows_in(vault, entries) =~= entries.filter(a).map_values(f));
        assert(versions_in(entries) =~= entries.filter(b).map_values(g));
    }
}

// ---------------------------------------------------------------------------
// Writing
// ---------------------------------------------------------------------------

proof fn lemma_put_field(
    fields: Seq<(Seq<char>, JsonView)>,
    key: Seq<char>,
    value: JsonView,
    other: Seq<char>,
)
    ensures
        JsonView::Object(put_field(fields, key, value)).member(key) == value,
        other != key ==> JsonView::Object(put_field(fields, key, value)).member(other)
            == JsonView::Object(fields).member(other),
    decreases fields.len(),
{
    let then = put_field(fields, key, value);
    if fields.len() == 0 || sooner(key, fields[0].0) {
        assert(then[0] == (key, value));
        assert(then.skip(1) =~= fields);
    } else if key == fields[0].0 {
        assert(then[0] == (key, value));
        assert(then.skip(1) =~= fields.skip(1));
        lemma_member_behind(fields, other);
    } else {
        lemma_put_field(fields.skip(1), key, value, other);
        assert(then[0] == fields[0]);
        assert(then.skip(1) =~= put_field(fields.skip(1), key, value));
        lemma_member_behind(then, key);
        lemma_member_behind(then, other);
        lemma_member_behind(fields, other);
    }
    lemma_member_behind(then, other);
}

/// A member is the first field's, or else one of those behind it.
proof fn lemma_member_behind(fields: Seq<(Seq<char>, JsonView)>, key: Seq<char>)
    requires
        fields.len() > 0,
    ensures
        JsonView::Object(fields).member(key) == if fields[0].0 == key {
            fields[0].1
        } else {
            JsonView::Object(fields.skip(1)).member(key)
        },
{
    let rest = fields.skip(1);
    lemma_place_of_key(rest, key);
    if fields[0].0 != key && field_at(rest, key) < rest.len() {
        assert(fields[field_at(rest, key) + 1] == rest[field_at(rest, key)]);
    }
}

proof fn lemma_place_of_key(fields: Seq<(Seq<char>, JsonView)>, key: Seq<char>)
    ensures
        0 <= field_at(fields, key) <= fields.len(),
    decreases fields.len(),
{
    if fields.len() > 0 {
        lemma_place_of_key(fields.skip(1), key);
    }
}

proof fn lemma_keyed(fields: Seq<(Seq<char>, JsonView)>, at: int)
    requires
        0 <= at < fields.len(),
        forall|i: int, j: int|
            0 <= i < j < fields.len() ==> (#[trigger] fields[i]).0 != (#[trigger] fields[j]).0,
    ensures
        JsonView::Object(keyed(fields)).member(fields[at].0) == fields[at].1,
    decreases fields.len(),
{
    let before = fields.drop_last();
    let last = fields.last();
    lemma_put_field(keyed(before), last.0, last.1, fields[at].0);
    if at < before.len() {
        assert(before[at] == fields[at]);
        assert forall|i: int, j: int| 0 <= i < j < before.len() implies (#[trigger] before[i]).0 != (
        #[trigger] before[j]).0 by {
            assert(before[i] == fields[i]);
            assert(before[j] == fields[j]);
        }
        lemma_keyed(before, at);
        assert(fields[at].0 != fields[fields.len() - 1].0);
    }
}

proof fn lemma_written_field(fields: Seq<(Seq<char>, JsonView)>, count: nat)
    requires
        count <= fields.len(),
    ensures
        written_fields(fields, count).len() == count,
        forall|i: int|
            0 <= i < count ==> #[trigger] written_fields(fields, count)[i] == (
                fields[i].0,
                written(fields[i].1),
            ),
    decreases count,
{
    if count > 0 {
        lemma_written_field(fields, (count - 1) as nat);
    }
}

/// A document that is written has every member that it had, under its own key,
/// and a list has its items in the order they stood.
pub proof fn law_what_is_written_keeps_every_member(
    fields: Seq<(Seq<char>, JsonView)>,
    at: int,
    items: Seq<JsonView>,
    place: int,
)
    requires
        forall|i: int, j: int|
            0 <= i < j < fields.len() ==> (#[trigger] fields[i]).0 != (#[trigger] fields[j]).0,
    ensures
        0 <= at < fields.len() ==> written(JsonView::Object(fields)).member(fields[at].0) == written(
            fields[at].1,
        ),
        written(JsonView::List(items)).items().len() == items.len(),
        0 <= place < items.len() ==> written(JsonView::List(items)).items()[place] == written(
            items[place],
        ),
        forall|text: Seq<char>| #[trigger]
            written(JsonView::Text(text)) == JsonView::Text(text),
        written(JsonView::Null) == JsonView::Null,
        written(JsonView::Bool(true)) == JsonView::Bool(true),
        written(JsonView::Bool(false)) == JsonView::Bool(false),
{
    if 0 <= at < fields.len() {
        let all = written_fields(fields, fields.len());
        lemma_written_field(fields, fields.len());
        assert forall|i: int, j: int| 0 <= i < j < all.len() implies (#[trigger] all[i]).0 != (
        #[trigger] all[j]).0 by {
            assert(all[i].0 == fields[i].0);
            assert(all[j].0 == fields[j].0);
        }
        lemma_keyed(all, at);
        assert(all[at] == (fields[at].0, written(fields[at].1)));
    }
    lemma_written_item(items, items.len());
}

proof fn lemma_written_item(items: Seq<JsonView>, count: nat)
    requires
        count <= items.len(),
    ensures
        written_items(items, count).len() == count,
        forall|i: int|
            0 <= i < count ==> #[trigger] written_items(items, count)[i] == written(items[i]),
    decreases count,
{
    if count > 0 {
        lemma_written_item(items, (count - 1) as nat);
    }
}

// ---------------------------------------------------------------------------
// Signing
// ---------------------------------------------------------------------------

/// A call for an audience whose token is at hand is signed with that token, and
/// where it is answered well that is all that is sent.
pub proof fn law_a_token_at_hand_signs_the_call(
    client: ClientView,
    audience: AudienceView,
    request: RequestView,
    token: Seq<char>,
    response: ResponseView,
)
    requires
        cached_under(client.cached, audience.key_text()) == Some(token),
        (client.world.replies)(
            client.requests.len(),
            RequestView { bearer: Some(token), ..request },
        ) == Ok::<ResponseView, Seq<char>>(response),
        200 <= response.status < 300,
    ensures
        client.called(audience, request).0.requests == client.requests.push(
            RequestView { bearer: Some(token), ..request },
        ),
        client.called(audience, request).1 == answer_said(request.url, response),
{
    reveal(ClientView::called);
    reveal(ClientView::token_of);
    reveal(ClientView::plain_token);
    reveal(ClientView::attempted);
}

/// Whether a token is at hand under a key, and what it signs is answered well.
pub open spec fn answers_signed(
    client: ClientView,
    key: Seq<char>,
    token: Seq<char>,
    url: Seq<char>,
    response: ResponseView,
) -> bool {
    &&& cached_under(client.cached, key) == Some(token)
    &&& (client.world.replies)(
        client.requests.len(),
        RequestView { method: Method::Get, url, bearer: Some(token), body: BodyView::Empty },
    ) == Ok::<ResponseView, Seq<char>>(response)
    &&& 200 <= response.status < 300
}

/// A vault is read with a vault's token; a repository and a manifest with a
/// token for that repository's metadata, of its own registry, and a catalog with
/// one for the catalog.
pub proof fn law_each_read_is_signed_for_its_own_plane(
    client: ClientView,
    vault: VaultView,
    registry: RegistryView,
    name: Seq<char>,
    version: Option<Seq<char>>,
    digest: Seq<char>,
    token: Seq<char>,
    response: ResponseView,
)
    ensures
        answers_signed(
            client,
            "https://vault.azure.net"@,
            token,
            super::vault::value_url(vault.uri, name, version),
            response,
        ) ==> client.value_read(vault, name, version).0.requests.last().bearer == Some(token),
        answers_signed(
            client,
            "acr:"@ + registry.login_server + ":"@ + ("repository:"@ + name + ":metadata_read"@),
            token,
            super::acr::repository_url(registry.login_server, name),
            response,
        ) ==> client.attributes_read(registry, name).0.requests.last().bearer == Some(token),
        answers_signed(
            client,
            "acr:"@ + registry.login_server + ":"@ + ("repository:"@ + name + ":metadata_read"@),
            token,
            super::acr::manifest_url(registry.login_server, name, digest),
            response,
        ) ==> client.manifest_read(registry, name, digest).0.requests.last().bearer == Some(token),
        answers_signed(
            client,
            "acr:"@ + registry.login_server + ":"@ + ("repository:"@ + name + ":metadata_read"@),
            token,
            super::acr::tags_url_text(registry.login_server, name, None),
            response,
        ) ==> client.tags_listed(registry, name, None, Seq::empty(), 1).0.requests.last().bearer
            == Some(token),
        answers_signed(
            client,
            "acr:"@ + registry.login_server + ":"@ + "registry:catalog:*"@,
            token,
            super::acr::catalog_url(registry.login_server, None),
            response,
        ) ==> client.catalog_listed(registry, None, Seq::empty(), 1).0.requests.last().bearer
            == Some(token),
{
    let repository = super::acr::repository_audience(registry.login_server, name);
    let catalog = super::acr::catalog_audience(registry.login_server);
    let url = super::vault::value_url(vault.uri, name, version);
    if answers_signed(client, "https://vault.azure.net"@, token, url, response) {
        law_a_token_at_hand_signs_the_call(
            client,
            AudienceView::Vault,
            RequestView::get(url),
            token,
            response,
        );
    }
    let url = super::acr::repository_url(registry.login_server, name);
    if answers_signed(client, repository.key_text(), token, url, response) {
        let request = RequestView::get(url);
        law_a_token_at_hand_signs_the_call(client, repository, request, token, response);
    }
    let url = super::acr::manifest_url(registry.login_server, name, digest);
    if answers_signed(client, repository.key_text(), token, url, response) {
        let request = RequestView::get(url);
        law_a_token_at_hand_signs_the_call(client, repository, request, token, response);
    }
    let url = super::acr::tags_url_text(registry.login_server, name, None);
    if answers_signed(client, repository.key_text(), token, url, response) {
        let request = RequestView::get(url);
        law_a_token_at_hand_signs_the_call(client, repository, request, token, response);
        let (one, answer) = client.called(repository, request);
        if let Ok(page) = answer {
            let listed = super::acr::tags_in(page.member("tags"@).items());
            let next = super::acr::last_tag(listed);
            assert(one.tags_listed(registry, name, next, Seq::empty() + listed, 0).0 == one);
        }
    }
    let url = super::acr::catalog_url(registry.login_server, None);
    if answers_signed(client, catalog.key_text(), token, url, response) {
        let request = RequestView::get(url);
        law_a_token_at_hand_signs_the_call(client, catalog, request, token, response);
        let (one, answer) = client.called(catalog, request);
        if let Ok(page) = answer {
            let listed = super::acr::some_texts(page.member("repositories"@).items());
            let next = super::acr::last_text(listed);
            assert(one.catalog_listed(registry, next, Seq::empty() + listed, 0).0 == one);
        }
    }
}

/// A vault's refusal is told in fewer words only where it is one of the two
/// that are common: the firewall's, or a login without the role.
pub proof fn law_only_a_forbidden_read_is_told_in_fewer_words(
    vault: Seq<char>,
    failure: FailureView,
)
    ensures
        !(failure.cause is Api) ==> refusal_in(vault, failure) == failure,
        failure.cause is Api && failure.cause->Api_0.status != 403 ==> refusal_in(vault, failure)
            == failure,
        failure.cause is Api && failure.cause->Api_0.status == 403 ==> refusal_in(
            vault,
            failure,
        ).cause is Other,
        failure.cause is Api && failure.cause->Api_0.status == 403 && (exists|i: int|
            0 <= i < failure.cause->Api_0.codes.len() && same_letters(
                #[trigger] failure.cause->Api_0.codes[i],
                "ForbiddenByFirewall"@,
            )) ==> refusal_in(vault, failure).text == vault
            + ": blocked by the vault firewall (your IP is not allowed)"@,
{
    if failure.cause is Api {
        let codes = failure.cause->Api_0.codes;
        assert forall|i: int| 0 <= i < codes.len() implies same(
            #[trigger] codes[i],
            "ForbiddenByFirewall"@,
        ) == same_letters(codes[i], "ForbiddenByFirewall"@) by {
            law_the_same_name_has_the_same_letters(codes[i], "ForbiddenByFirewall"@);
        }
    }
}

} // verus!
