//! Resource Graph: one query for every vault and registry the login can reach,
//! rather than one list call per provider per subscription. That is the whole
//! reason Resource Graph exists, and it is why the first frame costs one round
//! trip instead of dozens.

use vstd::prelude::*;

use super::allow::{allowed, kept, lemma_kept_views, names_of};
use super::auth::{Audience, AudienceView, TokenSource};
use super::failure::{api_error, CauseView, Failure, FailureView};
use super::json::{as_bool, as_str, held, string, text, Json, JsonView};
use super::transport::{Client, ClientView, Clock, Request, RequestView, Transport};
use super::{views, Inventory, InventoryView, Registry, RegistryView, Vault, VaultView};
use crate::config::{Azure, AzureView};
use crate::kube::{said, same_text};
use crate::text::{
    decimal, equal, holds, is_blank, lower, number, texts, to_lower, trimmed, within,
};

verus! {

/// The current stable Resource Graph version, which the `$`-prefixed option
/// keys below are specified in.
pub const URL: &'static str = "https://management.azure.com/providers/Microsoft.ResourceGraph/resources?api-version=2024-04-01";

/// The two resource types the tabs know, with the fields each needs projected
/// under one name.
///
/// The sort names `id` as well as `name`: a skip token paging over a
/// non-unique sort column can hand back a row twice and miss another, which is
/// Resource Graph's own warning about paging.
pub const QUERY: &'static str = "resources\n| where type in~ ('microsoft.keyvault/vaults', 'microsoft.containerregistry/registries')\n| project id, name, type, resourceGroup, location,\n          loginServer = tostring(properties.loginServer),\n          vaultUri = tostring(properties.vaultUri)\n| order by name asc, id asc";

/// The most rows one page may carry, which is also Resource Graph's own cap.
pub const PAGE: i128 = 1000;

/// How many pages a listing is followed for before it is given up: as many as
/// a machine word counts.
pub const PAGES: u64 = 0xffff_ffff_ffff_ffff;

/// The subscriptions that are not blank.
pub open spec fn named(subscriptions: Seq<Seq<char>>) -> Seq<JsonView>
    decreases subscriptions.len(),
{
    if subscriptions.len() == 0 {
        Seq::empty()
    } else {
        let before = named(subscriptions.drop_last());
        if trimmed(subscriptions.last()).len() == 0 {
            before
        } else {
            before.push(JsonView::Text(subscriptions.last()))
        }
    }
}

/// The options of the query, with the page it goes on from.
pub open spec fn options_of(skip: Option<Seq<char>>) -> Seq<(Seq<char>, JsonView)> {
    let options = seq![
        ("$top"@, JsonView::Number(Some(PAGE))),
        ("resultFormat"@, JsonView::Text("objectArray"@)),
    ];
    match skip {
        Some(token) => options.push(("$skipToken"@, JsonView::Text(token))),
        None => options,
    }
}

/// The query body.
pub open spec fn body_of(subscriptions: Seq<Seq<char>>, skip: Option<Seq<char>>) -> JsonView {
    let fields = seq![
        ("query"@, JsonView::Text(QUERY@)),
        ("options"@, JsonView::Object(options_of(skip))),
    ];
    JsonView::Object(
        if named(subscriptions).len() == 0 {
            fields
        } else {
            fields.push(("subscriptions"@, JsonView::List(named(subscriptions))))
        },
    )
}

/// The vault a row is.
pub open spec fn vault_in(row: JsonView) -> VaultView {
    VaultView {
        id: row.member("id"@).any_text(),
        name: row.member("name"@).any_text(),
        resource_group: row.member("resourceGroup"@).any_text(),
        location: row.member("location"@).any_text(),
        uri: row.member("vaultUri"@).any_text(),
    }
}

/// The registry a row is.
pub open spec fn registry_in(row: JsonView) -> RegistryView {
    RegistryView {
        id: row.member("id"@).any_text(),
        name: row.member("name"@).any_text(),
        resource_group: row.member("resourceGroup"@).any_text(),
        location: row.member("location"@).any_text(),
        login_server: row.member("loginServer"@).any_text(),
    }
}

pub open spec fn is_vault(row: JsonView) -> bool {
    lower(row.member("type"@).any_text()) == "microsoft.keyvault/vaults"@
}

pub open spec fn is_registry(row: JsonView) -> bool {
    lower(row.member("type"@).any_text()) == "microsoft.containerregistry/registries"@
}

/// The vaults among the rows, in their order.
pub open spec fn vaults_in(rows: Seq<JsonView>) -> Seq<VaultView>
    decreases rows.len(),
{
    if rows.len() == 0 {
        Seq::empty()
    } else if is_vault(rows.last()) {
        vaults_in(rows.drop_last()).push(vault_in(rows.last()))
    } else {
        vaults_in(rows.drop_last())
    }
}

/// The registries among the rows, in their order.
pub open spec fn registries_in(rows: Seq<JsonView>) -> Seq<RegistryView>
    decreases rows.len(),
{
    if rows.len() == 0 {
        Seq::empty()
    } else if is_registry(rows.last()) && !is_vault(rows.last()) {
        registries_in(rows.drop_last()).push(registry_in(rows.last()))
    } else {
        registries_in(rows.drop_last())
    }
}

/// Whether a page says that the answer was cut short.
pub open spec fn is_truncated(page: JsonView) -> bool {
    ||| page.member("resultTruncated"@).text() == Some("true"@)
    ||| page.member("resultTruncated"@).boolean() == Some(true)
}

/// What to say of a login that has nothing to look at.
pub open spec fn explained(failure: FailureView) -> FailureView {
    let nothing_in_scope = (failure.cause matches CauseView::Api(refusal) && (refusal.status == 403
        || refusal.names("NoValidSubscriptionsInQueryRequest"@))) || within(
        failure.text,
        "NoValidSubscriptionsInQueryRequest"@,
    );
    if nothing_in_scope {
        failure.explained("the login can see no subscriptions; run `az account list`"@)
    } else {
        failure
    }
}

pub open spec fn vault_names(vaults: Seq<VaultView>) -> Seq<Seq<char>> {
    vaults.map_values(|vault: VaultView| vault.name)
}

pub open spec fn registry_names(registries: Seq<RegistryView>) -> Seq<Seq<char>> {
    registries.map_values(|registry: RegistryView| registry.name)
}

/// What the configuration allows of what was found.
pub open spec fn allowed_in(found: InventoryView, azure: AzureView) -> InventoryView {
    InventoryView {
        vaults: kept(found.vaults, vault_names(found.vaults), azure.vaults),
        registries: kept(
            found.registries,
            registry_names(found.registries),
            azure.registries,
        ),
    }
}

/// What the listing comes to once its last page is read.
pub open spec fn listed(found: InventoryView, truncated: bool, azure: AzureView) -> Result<
    InventoryView,
    FailureView,
> {
    let inventory = allowed_in(found, azure);
    if truncated {
        Err(
            FailureView::other(
                "Resource Graph truncated the answer at "@ + decimal(inventory.vaults.len())
                    + " vaults and "@ + decimal(inventory.registries.len())
                    + " registries; name the subscriptions in config.toml to narrow it"@,
            ),
        )
    } else {
        Ok(inventory)
    }
}

impl ClientView {
    /// The inventory, read on from a page with that much found before it.
    pub open spec fn inventoried(
        self,
        azure: AzureView,
        skip: Option<Seq<char>>,
        found: InventoryView,
        truncated: bool,
        left: nat,
    ) -> (Self, Result<InventoryView, FailureView>)
        decreases left,
    {
        if left == 0 {
            (self, Err(FailureView::other("Resource Graph never came to an end"@)))
        } else {
            let (then, answer) = self.called(
                AudienceView::Arm,
                RequestView::post_json(URL@, body_of(azure.subscriptions, skip)),
            );
            match answer {
                Err(failure) => (then, Err(explained(failure))),
                Ok(page) => {
                    let rows = page.member("data"@).items();
                    let found = InventoryView {
                        vaults: found.vaults + vaults_in(rows),
                        registries: found.registries + registries_in(rows),
                    };
                    let truncated = truncated || is_truncated(page);
                    let next = page.member("$skipToken"@).some_text();
                    if next is None || next == skip {
                        (then, listed(found, truncated, azure))
                    } else {
                        then.inventoried(azure, next, found, truncated, (left - 1) as nat)
                    }
                },
            }
        }
    }
}

fn vault(row: &Json) -> (r: Vault)
    ensures
        r@ == vault_in(row@),
{
    Vault {
        id: string(row.get("id")),
        name: string(row.get("name")),
        resource_group: string(row.get("resourceGroup")),
        location: string(row.get("location")),
        uri: string(row.get("vaultUri")),
    }
}

fn registry(row: &Json) -> (r: Registry)
    ensures
        r@ == registry_in(row@),
{
    Registry {
        id: string(row.get("id")),
        name: string(row.get("name")),
        resource_group: string(row.get("resourceGroup")),
        location: string(row.get("location")),
        login_server: string(row.get("loginServer")),
    }
}

fn named_list(subscriptions: &Vec<String>) -> (r: Vec<Json>)
    ensures
        views(r@) == named(texts(subscriptions@)),
        r@.len() == named(texts(subscriptions@)).len(),
{
    let ghost all = texts(subscriptions@);
    let mut out: Vec<Json> = Vec::new();
    let mut i: usize = 0;
    proof {
        assert(all.take(0) =~= Seq::<Seq<char>>::empty());
        assert(views(out@) =~= Seq::<JsonView>::empty());
    }
    while i < subscriptions.len()
        invariant
            i <= subscriptions@.len(),
            all == texts(subscriptions@),
            views(out@) == named(all.take(i as int)),
        decreases subscriptions@.len() - i,
    {
        proof {
            assert(all.take(i + 1).drop_last() =~= all.take(i as int));
            assert(all.take(i + 1).last() == subscriptions@[i as int]@);
        }
        if !is_blank(subscriptions[i].as_str()) {
            let ghost before = out@;
            out.push(Json::of_text(subscriptions[i].as_str()));
            proof {
                assert(views(out@) =~= views(before).push(JsonView::Text(all[i as int])));
            }
        }
        i = i + 1;
    }
    proof {
        assert(all.take(all.len() as int) =~= all);
        assert(views(out@).len() == out@.len());
    }
    out
}

/// The query body. `subscriptions` is left out entirely when nothing named
/// any: the query then runs over every subscription the login can reach, which
/// is what an empty list means everywhere else in the configuration too. An
/// empty *array* would mean the opposite, and answer nothing.
fn body(azure: &Azure, skip: Option<&str>) -> (r: Json)
    ensures
        r@ == body_of(texts(azure.subscriptions@), super::waits::header_said(skip)),
{
    // `resultFormat` is set rather than left to the default: the REST
    // reference and the guidance page disagree about which default applies,
    // and `objectArray` is the shape the rows are read in below.
    let mut options: Vec<(String, Json)> = Vec::new();
    options.push(("$top".to_owned(), Json::Number(Some(PAGE))));
    options.push(("resultFormat".to_owned(), Json::of_text("objectArray")));
    if let Some(token) = skip {
        options.push(("$skipToken".to_owned(), Json::of_text(token)));
    }
    proof {
        super::json::lemma_object(options);
        assert(Json::Object(options)@.fields() =~= options_of(super::waits::header_said(skip)));
    }
    let mut fields: Vec<(String, Json)> = Vec::new();
    fields.push(("query".to_owned(), Json::of_text(QUERY)));
    fields.push(("options".to_owned(), Json::Object(options)));
    let subscriptions = named_list(&azure.subscriptions);
    if subscriptions.len() > 0 {
        proof {
            super::json::lemma_list(subscriptions);
            assert(Json::List(subscriptions)@.items() =~= named(texts(azure.subscriptions@)));
        }
        fields.push(("subscriptions".to_owned(), Json::List(subscriptions)));
    }
    proof {
        super::json::lemma_object(fields);
        assert(Json::Object(fields)@.fields() =~= body_of(
            texts(azure.subscriptions@),
            super::waits::header_said(skip),
        ).fields());
    }
    Json::Object(fields)
}

/// The one refusal worth rewording: it reads as an argument error, or as a
/// bare `403`, and is really "this login has nothing to look at".
///
/// Resource Graph answers `403` when none of the subscriptions in scope are
/// ones the caller has rights to, and some tenants answer a `400` naming
/// `NoValidSubscriptionsInQueryRequest` instead. Both mean the same thing and
/// neither is worth showing raw.
fn explain(error: Failure) -> (r: Failure)
    ensures
        r@ == explained(error@),
{
    let refused = match api_error(&error) {
        Some(refusal) => refusal.status == 403 || refusal.has_code(
            "NoValidSubscriptionsInQueryRequest",
        ),
        None => false,
    };
    if refused || holds(error.text.as_str(), "NoValidSubscriptionsInQueryRequest") {
        return error.context("the login can see no subscriptions; run `az account list`");
    }
    error
}

/// Puts a page's rows with what was found before it.
fn collect(page: &Json, found: &mut Inventory)
    ensures
        final(found)@ == (InventoryView {
            vaults: old(found)@.vaults + vaults_in(page@.member("data"@).items()),
            registries: old(found)@.registries + registries_in(page@.member("data"@).items()),
        }),
{
    let ghost was = found@;
    let ghost rows = page@.member("data"@).items();
    let data = page.get("data");
    let items = match data {
        Some(data) => data.items(),
        None => None,
    };
    if let Some(items) = items {
        let mut i: usize = 0;
        proof {
            assert(rows.take(0) =~= Seq::<JsonView>::empty());
            assert(was.vaults + vaults_in(rows.take(0)) =~= was.vaults);
            assert(was.registries + registries_in(rows.take(0)) =~= was.registries);
        }
        while i < items.len()
            invariant
                i <= items@.len(),
                rows.len() == items@.len(),
                forall|k: int| 0 <= k < items@.len() ==> (#[trigger] items@[k])@ == rows[k],
                found@.vaults == was.vaults + vaults_in(rows.take(i as int)),
                found@.registries == was.registries + registries_in(rows.take(i as int)),
            decreases items@.len() - i,
        {
            let row = &items[i];
            proof {
                assert(rows.take(i + 1).drop_last() =~= rows.take(i as int));
                assert(rows.take(i + 1).last() == row@);
            }
            let kind = to_lower(string(row.get("type")).as_str());
            let ghost before = found@;
            if equal(kind.as_str(), "microsoft.keyvault/vaults") {
                found.vaults.push(vault(row));
                proof {
                    assert(found@.vaults =~= before.vaults.push(vault_in(row@)));
                    assert(found@.registries =~= before.registries);
                    assert(before.vaults.push(vault_in(row@)) =~= was.vaults + vaults_in(
                        rows.take(i + 1),
                    ));
                }
            } else if equal(kind.as_str(), "microsoft.containerregistry/registries") {
                found.registries.push(registry(row));
                proof {
                    assert(found@.registries =~= before.registries.push(registry_in(row@)));
                    assert(found@.vaults =~= before.vaults);
                    assert(before.registries.push(registry_in(row@)) =~= was.registries
                        + registries_in(rows.take(i + 1)));
                }
            }
            i = i + 1;
        }
        proof {
            assert(rows.take(rows.len() as int) =~= rows);
        }
    } else {
        proof {
            assert(rows =~= Seq::<JsonView>::empty());
            assert(was.vaults + vaults_in(rows) =~= was.vaults);
            assert(was.registries + registries_in(rows) =~= was.registries);
        }
    }
}

fn cut_short(page: &Json) -> (r: bool)
    ensures
        r == is_truncated(page@),
{
    let held = page.get("resultTruncated");
    if let Some(said) = as_str(held) {
        return equal(said, "true");
    }
    match as_bool(held) {
        Some(said) => said,
        None => false,
    }
}

fn finish(found: Inventory, truncated: bool, azure: &Azure) -> (r: Result<Inventory, Failure>)
    ensures
        inventory_said(r) == listed(found@, truncated, azure@),
{
    proof {
        lemma_kept_views(found.vaults@, names_of(found.vaults@), texts(azure.vaults@));
        lemma_kept_views(found.registries@, names_of(found.registries@), texts(azure.registries@));
        assert(names_of(found.vaults@) =~= vault_names(found@.vaults));
        assert(names_of(found.registries@) =~= registry_names(found@.registries));
    }
    let inventory = Inventory {
        vaults: allowed(found.vaults, &azure.vaults),
        registries: allowed(found.registries, &azure.registries),
    };
    // A truncated answer carries no skip token, so paging cannot recover the
    // rest; the tables would simply be short and nobody would know why.
    if truncated {
        proof {
            assert(inventory@.vaults.len() == inventory.vaults@.len());
            assert(inventory@.registries.len() == inventory.registries@.len());
        }
        let mut text = "Resource Graph truncated the answer at ".to_owned();
        text.push_str(number(inventory.vaults.len() as u64).as_str());
        text.push_str(" vaults and ");
        text.push_str(number(inventory.registries.len() as u64).as_str());
        text.push_str(" registries; name the subscriptions in config.toml to narrow it");
        return Err(Failure::other(text));
    }
    Ok(inventory)
}

/// What an inventory came to.
pub open spec fn inventory_said(result: Result<Inventory, Failure>) -> Result<
    InventoryView,
    FailureView,
> {
    match result {
        Ok(inventory) => Ok(inventory@),
        Err(failure) => Err(failure@),
    }
}

pub open spec fn nothing_found() -> InventoryView {
    InventoryView { vaults: Seq::empty(), registries: Seq::empty() }
}

/// Every vault and registry the configuration allows, in the order it names
/// them.
pub fn inventory<T: TokenSource, H: Transport, C: Clock>(
    client: &mut Client<T, H, C>,
    azure: &Azure,
) -> (r: Result<Inventory, Failure>)
    ensures
        (final(client)@, inventory_said(r)) == old(client)@.inventoried(
            azure@,
            None,
            nothing_found(),
            false,
            PAGES as nat,
        ),
{
    let mut found = Inventory::default();
    let mut skip: Option<String> = None;
    let mut truncated = false;
    let mut left: u64 = PAGES;
    proof {
        assert(found@.vaults =~= nothing_found().vaults);
        assert(found@.registries =~= nothing_found().registries);
    }
    while left > 0
        invariant
            client@.inventoried(azure@, said(skip), found@, truncated, left as nat) == old(
                client,
            )@.inventoried(azure@, None, nothing_found(), false, PAGES as nat),
        decreases left,
    {
        let request = Request::post_json(
            URL,
            body(
                azure,
                match &skip {
                    Some(token) => Some(token.as_str()),
                    None => None,
                },
            ),
        );
        let page = match client.call(&Audience::Arm, request) {
            Ok(page) => page,
            Err(failure) => return Err(explain(failure)),
        };
        collect(&page, &mut found);
        if cut_short(&page) {
            truncated = true;
        }
        let next = text(page.get("$skipToken"));
        // A repeated token would page for ever; absent or unchanged is the end
        // of the answer either way.
        if next.is_none() || same_text(&next, &skip) {
            return finish(found, truncated, azure);
        }
        skip = next;
        left = left - 1;
    }
    Err(Failure::other("Resource Graph never came to an end".to_owned()))
}

} // verus!
