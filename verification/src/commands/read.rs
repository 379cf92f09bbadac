//! What the subcommands read: the cache when it is fresh enough, and Azure
//! otherwise.

use vstd::prelude::*;

use super::{narrow, narrowed, Failure, ReasonView};
use crate::azure::acr;
use crate::azure::allow::{copy_all, names_of, Named};
use crate::azure::auth::TokenSource;
use crate::azure::failure::{Failure as ReadFailure, FailureView};
use crate::azure::graph::{self, inventory_said, nothing_found, registry_names, vault_names, PAGES};
use crate::azure::transport::{Client, ClientView, Clock, Transport};
use crate::azure::vault::{self, secrets_url};
use crate::azure::{
    views, Inventory, InventoryView, Registry, RegistryView, Repository, RepositoryView, SecretRow,
    SecretRowView, Vault, VaultView,
};
use crate::cache::{fresh, is_fresh, tab_under, CachedTab, Snapshot};
use crate::config::{Azure, AzureView, REGISTRIES_TAB, SECRETS_TAB};
use crate::text::{equal, texts};
use crate::timestamp::Timestamp;

verus! {

/// Everything a command needs besides a client: the configuration, the
/// snapshot on disk, and the moment it is asked at.
pub struct Context<'a> {
    pub azure: &'a Azure,
    pub cache: Option<&'a Snapshot>,
    pub now: Timestamp,
}

/// How many seconds what is on file is good for, where the file does not say.
pub const GOOD_FOR: u64 = 300;

impl<'a> Context<'a> {
    /// What is on file for a tab, if that is young enough. Older than the
    /// refresh interval and a shell command should go and look. A refresh of
    /// nought turns the timer off in the TUI; from a shell it means the cache
    /// never goes off by itself.
    pub open spec fn on_file(self, tab: Seq<char>) -> Option<CachedTab> {
        match self.cache {
            None => None,
            Some(snapshot) => match tab_under(snapshot.tabs@, tab) {
                None => None,
                Some(entry) => if is_fresh(
                    entry.moment(),
                    match self.azure.refresh {
                        Some(seconds) => seconds,
                        None => GOOD_FOR,
                    },
                    self.now,
                ) {
                    Some(entry)
                } else {
                    None
                },
            },
        }
    }

    /// The inventory on file, where both Azure tabs are young enough.
    pub open spec fn inventory_on_file(self) -> Option<InventoryView> {
        match (self.on_file(SECRETS_TAB@), self.on_file(REGISTRIES_TAB@)) {
            (
                Some(CachedTab::Secrets { vaults, .. }),
                Some(CachedTab::Registries { registries, .. }),
            ) => Some(InventoryView { vaults: views(vaults@), registries: views(registries@) }),
            _ => None,
        }
    }

    fn cached(&self, tab: &str) -> (r: Option<&'a CachedTab>)
        ensures
            r == match self.on_file(tab@) {
                Some(entry) => Some(&entry),
                None => None::<&CachedTab>,
            },
    {
        let snapshot = match self.cache {
            Some(snapshot) => snapshot,
            None => return None,
        };
        match snapshot.get(tab) {
            None => None,
            Some(entry) => {
                let good_for: u64 = match self.azure.refresh {
                    Some(seconds) => seconds,
                    None => GOOD_FOR,
                };
                if fresh(entry.read_at(), good_for, self.now) {
                    Some(entry)
                } else {
                    None
                }
            },
        }
    }
}

impl ClientView {
    /// The inventory, from the cache when both Azure tabs are young enough and
    /// from Azure otherwise, without the allowlist: it is applied after, and
    /// has to see what it leaves out to say so.
    pub open spec fn inventory_for(self, context: Context, refresh: bool) -> (
        Self,
        Result<InventoryView, FailureView>,
    ) {
        match context.inventory_on_file() {
            Some(inventory) if !refresh => (self, Ok(inventory)),
            _ => self.inventoried(
                AzureView {
                    vaults: Seq::empty(),
                    registries: Seq::empty(),
                    ..context.azure@
                },
                None,
                nothing_found(),
                false,
                PAGES as nat,
            ),
        }
    }

    /// The secrets of the first so many of some vaults, each listed in turn.
    pub open spec fn vaults_listed(self, vaults: Seq<VaultView>, count: nat) -> (
        Self,
        Seq<Result<Seq<SecretRowView>, FailureView>>,
    )
        decreases count,
    {
        if count == 0 || count > vaults.len() {
            (self, Seq::empty())
        } else {
            let (then, before) = self.vaults_listed(vaults, (count - 1) as nat);
            let vault = vaults[count - 1];
            let (last, listing) = then.secrets_listed(
                vault,
                Some(secrets_url(vault.uri)),
                Seq::empty(),
                PAGES as nat,
            );
            (last, before.push(listing))
        }
    }

    /// The catalogs of the first so many of some registries, each listed in
    /// turn.
    pub open spec fn catalogs_listed(self, registries: Seq<RegistryView>, count: nat) -> (
        Self,
        Seq<Result<Seq<Seq<char>>, FailureView>>,
    )
        decreases count,
    {
        if count == 0 || count > registries.len() {
            (self, Seq::empty())
        } else {
            let (then, before) = self.catalogs_listed(registries, (count - 1) as nat);
            let (last, catalog) = then.catalog_listed(
                registries[count - 1],
                None,
                Seq::empty(),
                PAGES as nat,
            );
            (last, before.push(catalog))
        }
    }
}

/// The rows that answered, one vault's after another's.
pub open spec fn rows_of(listings: Seq<Result<Seq<SecretRowView>, FailureView>>) -> Seq<
    SecretRowView,
>
    decreases listings.len(),
{
    if listings.len() == 0 {
        Seq::empty()
    } else {
        let before = rows_of(listings.drop_last());
        match listings.last() {
            Ok(rows) => before + rows,
            Err(_) => before,
        }
    }
}

/// What was said by those that would not answer.
pub open spec fn refusals_of<V>(listings: Seq<Result<V, FailureView>>) -> Seq<Seq<char>>
    decreases listings.len(),
{
    if listings.len() == 0 {
        Seq::empty()
    } else {
        let before = refusals_of(listings.drop_last());
        match listings.last() {
            Ok(_) => before,
            Err(failure) => before.push(failure.text),
        }
    }
}

/// A row for each name of a catalog, with everything else still to come.
pub open spec fn unfilled(registry: Seq<char>, names: Seq<Seq<char>>) -> Seq<RepositoryView> {
    names.map_values(
        |name: Seq<char>|
            RepositoryView {
                registry,
                name,
                tag_count: None,
                manifest_count: None,
                created: None,
                updated: None,
            },
    )
}

/// The repositories that were listed, one registry's after another's.
pub open spec fn repositories_of(
    registries: Seq<RegistryView>,
    catalogs: Seq<Result<Seq<Seq<char>>, FailureView>>,
) -> Seq<RepositoryView>
    decreases catalogs.len(),
{
    if catalogs.len() == 0 {
        Seq::empty()
    } else {
        let before = repositories_of(registries, catalogs.drop_last());
        match catalogs.last() {
            Ok(names) => before + unfilled(registries[catalogs.len() - 1].name, names),
            Err(_) => before,
        }
    }
}

/// The rows on file of the vaults that are read.
pub open spec fn rows_within(rows: Seq<SecretRowView>, vaults: Seq<VaultView>, all: bool) -> Seq<
    SecretRowView,
>
    decreases rows.len(),
{
    if rows.len() == 0 {
        Seq::empty()
    } else {
        let before = rows_within(rows.drop_last(), vaults, all);
        if all || vault_names(vaults).contains(rows.last().vault) {
            before.push(rows.last())
        } else {
            before
        }
    }
}

/// The repositories on file of the registries that are read.
pub open spec fn repositories_within(
    rows: Seq<RepositoryView>,
    registries: Seq<RegistryView>,
    all: bool,
) -> Seq<RepositoryView>
    decreases rows.len(),
{
    if rows.len() == 0 {
        Seq::empty()
    } else {
        let before = repositories_within(rows.drop_last(), registries, all);
        if all || registry_names(registries).contains(rows.last().registry) {
            before.push(rows.last())
        } else {
            before
        }
    }
}

/// The vaults a command reads, of those found.
pub open spec fn vaults_for(found: Seq<VaultView>, azure: AzureView, only: Seq<Seq<char>>) -> Result<
    Seq<VaultView>,
    ReasonView,
> {
    narrowed(found, vault_names(found), azure.vaults, only, "vault"@)
}

/// The registries a command reads, of those found.
pub open spec fn registries_for(
    found: Seq<RegistryView>,
    azure: AzureView,
    only: Seq<Seq<char>>,
) -> Result<Seq<RegistryView>, ReasonView> {
    narrowed(found, registry_names(found), azure.registries, only, "registry"@)
}

/// Every secret in every allowed vault, from the cache or from Azure, and what
/// the vaults that would not answer said.
pub open spec fn secrets_read(
    client: ClientView,
    context: Context,
    only: Seq<Seq<char>>,
    refresh: bool,
) -> (ClientView, Result<(Seq<SecretRowView>, Seq<Seq<char>>), ReasonView>) {
    match context.on_file(SECRETS_TAB@) {
        Some(CachedTab::Secrets { vaults, secrets, .. }) if !refresh => (
            client,
            match vaults_for(views(vaults@), context.azure@, only) {
                Err(reason) => Err(reason),
                Ok(vaults) => Ok(
                    (
                        rows_within(
                            views(secrets@),
                            vaults,
                            only.len() == 0 && context.azure@.vaults.len() == 0,
                        ),
                        Seq::empty(),
                    ),
                ),
            },
        ),
        _ => {
            let (then, inventory) = client.inventory_for(context, refresh);
            match inventory {
                Err(failure) => (then, Err(ReasonView::of_read(failure))),
                Ok(inventory) => match vaults_for(inventory.vaults, context.azure@, only) {
                    Err(reason) => (then, Err(reason)),
                    Ok(vaults) => {
                        let (last, listings) = then.vaults_listed(vaults, vaults.len());
                        (last, Ok((rows_of(listings), refusals_of(listings))))
                    },
                },
            }
        },
    }
}

/// Every repository in every allowed registry, from the cache or from Azure,
/// and what the registries that would not answer said.
pub open spec fn repositories_read(
    client: ClientView,
    context: Context,
    only: Seq<Seq<char>>,
    refresh: bool,
) -> (ClientView, Result<(Seq<RepositoryView>, Seq<Seq<char>>), ReasonView>) {
    match context.on_file(REGISTRIES_TAB@) {
        Some(CachedTab::Registries { registries, repositories, .. }) if !refresh => (
            client,
            match registries_for(views(registries@), context.azure@, only) {
                Err(reason) => Err(reason),
                Ok(registries) => Ok(
                    (
                        repositories_within(
                            views(repositories@),
                            registries,
                            only.len() == 0 && context.azure@.registries.len() == 0,
                        ),
                        Seq::empty(),
                    ),
                ),
            },
        ),
        _ => {
            let (then, inventory) = client.inventory_for(context, refresh);
            match inventory {
                Err(failure) => (then, Err(ReasonView::of_read(failure))),
                Ok(inventory) => match registries_for(
                    inventory.registries,
                    context.azure@,
                    only,
                ) {
                    Err(reason) => (then, Err(reason)),
                    Ok(registries) => {
                        let (last, catalogs) = then.catalogs_listed(
                            registries,
                            registries.len(),
                        );
                        (
                            last,
                            Ok((repositories_of(registries, catalogs), refusals_of(catalogs))),
                        )
                    },
                },
            }
        },
    }
}

// ---------------------------------------------------------------------------
// The reads
// ---------------------------------------------------------------------------

/// What each of some listings came to.
pub open spec fn listings_said(listings: Seq<Result<Vec<SecretRow>, ReadFailure>>) -> Seq<
    Result<Seq<SecretRowView>, FailureView>,
> {
    listings.map_values(
        |listing: Result<Vec<SecretRow>, ReadFailure>| vault::listing_said(listing),
    )
}

/// What each of some catalogs came to.
pub open spec fn catalogs_said(catalogs: Seq<Result<Vec<String>, ReadFailure>>) -> Seq<
    Result<Seq<Seq<char>>, FailureView>,
> {
    catalogs.map_values(|catalog: Result<Vec<String>, ReadFailure>| acr::names_said(catalog))
}

/// The inventory a command works from. One that has to be current passes
/// `refresh`.
pub fn inventory<T: TokenSource, H: Transport, C: Clock>(
    client: &mut Client<T, H, C>,
    context: &Context,
    refresh: bool,
) -> (r: Result<Inventory, ReadFailure>)
    ensures
        (final(client)@, inventory_said(r)) == old(client)@.inventory_for(*context, refresh),
{
    if !refresh {
        if let (
            Some(CachedTab::Secrets { vaults, .. }),
            Some(CachedTab::Registries { registries, .. }),
        ) = (context.cached(SECRETS_TAB), context.cached(REGISTRIES_TAB)) {
            return Ok(Inventory { vaults: copy_all(vaults), registries: copy_all(registries) });
        }
    }
    let everything = Azure {
        subscriptions: copy_all(&context.azure.subscriptions),
        vaults: Vec::new(),
        registries: Vec::new(),
        refresh: context.azure.refresh,
    };
    proof {
        assert(everything@.vaults =~= Seq::<Seq<char>>::empty());
        assert(everything@.registries =~= Seq::<Seq<char>>::empty());
    }
    graph::inventory(client, &everything)
}

/// Each vault's secrets, one vault after another.
pub fn list_vaults<T: TokenSource, H: Transport, C: Clock>(
    client: &mut Client<T, H, C>,
    vaults: &Vec<Vault>,
) -> (r: Vec<Result<Vec<SecretRow>, ReadFailure>>)
    ensures
        (final(client)@, listings_said(r@)) == old(client)@.vaults_listed(
            views(vaults@),
            vaults@.len(),
        ),
        r@.len() == vaults@.len(),
{
    let ghost all = views(vaults@);
    let mut out: Vec<Result<Vec<SecretRow>, ReadFailure>> = Vec::new();
    let mut i: usize = 0;
    proof {
        assert(listings_said(out@) =~= Seq::<Result<Seq<SecretRowView>, FailureView>>::empty());
    }
    while i < vaults.len()
        invariant
            i <= vaults@.len(),
            all == views(vaults@),
            out@.len() == i,
            (client@, listings_said(out@)) == old(client)@.vaults_listed(all, i as nat),
        decreases vaults@.len() - i,
    {
        let ghost before = out@;
        let listing = vault::secrets(client, &vaults[i]);
        let ghost said = vault::listing_said(listing);
        out.push(listing);
        proof {
            assert(listings_said(out@) =~= listings_said(before).push(said));
            assert(all[i as int] == vaults@[i as int]@);
        }
        i = i + 1;
    }
    out
}

/// Each registry's catalog, one registry after another.
pub fn list_catalogs<T: TokenSource, H: Transport, C: Clock>(
    client: &mut Client<T, H, C>,
    registries: &Vec<Registry>,
) -> (r: Vec<Result<Vec<String>, ReadFailure>>)
    ensures
        (final(client)@, catalogs_said(r@)) == old(client)@.catalogs_listed(
            views(registries@),
            registries@.len(),
        ),
        r@.len() == registries@.len(),
{
    let ghost all = views(registries@);
    let mut out: Vec<Result<Vec<String>, ReadFailure>> = Vec::new();
    let mut i: usize = 0;
    proof {
        assert(catalogs_said(out@) =~= Seq::<Result<Seq<Seq<char>>, FailureView>>::empty());
    }
    while i < registries.len()
        invariant
            i <= registries@.len(),
            all == views(registries@),
            out@.len() == i,
            (client@, catalogs_said(out@)) == old(client)@.catalogs_listed(all, i as nat),
        decreases registries@.len() - i,
    {
        let ghost before = out@;
        let catalog = acr::repositories(client, &registries[i]);
        let ghost said = acr::names_said(catalog);
        out.push(catalog);
        proof {
            assert(catalogs_said(out@) =~= catalogs_said(before).push(said));
            assert(all[i as int] == registries@[i as int]@);
        }
        i = i + 1;
    }
    out
}

/// The rows of the listings that answered, and what the others said.
#[must_use]
pub fn gather(listings: Vec<Result<Vec<SecretRow>, ReadFailure>>) -> (r: (
    Vec<SecretRow>,
    Vec<String>,
))
    ensures
        views(r.0@) == rows_of(listings_said(listings@)),
        texts(r.1@) == refusals_of(listings_said(listings@)),
{
    let ghost all = listings_said(listings@);
    let mut rows: Vec<SecretRow> = Vec::new();
    let mut failed: Vec<String> = Vec::new();
    proof {
        assert(views(rows@) =~= Seq::<SecretRowView>::empty());
        assert(texts(failed@) =~= Seq::<Seq<char>>::empty());
        assert(all.take(0) =~= Seq::<Result<Seq<SecretRowView>, FailureView>>::empty());
    }
    for listing in iter: listings.into_iter()
        invariant
            all == listings_said(iter.seq()),
            views(rows@) == rows_of(all.take(iter.index() as int)),
            texts(failed@) == refusals_of(all.take(iter.index() as int)),
    {
        let ghost i = iter.index() as int;
        proof {
            assert(all.take(i + 1).drop_last() =~= all.take(i));
            assert(all.take(i + 1).last() == vault::listing_said(listing));
        }
        match listing {
            Ok(found) => {
                let mut found = found;
                let ghost before = rows@;
                let ghost more = found@;
                rows.append(&mut found);
                proof {
                    assert(views(rows@) =~= views(before) + views(more));
                }
            },
            Err(error) => {
                let ghost before = failed@;
                let ghost said = error.text@;
                failed.push(error.text);
                proof {
                    assert(texts(failed@) =~= texts(before).push(said));
                }
            },
        }
    }
    proof {
        assert(all.take(all.len() as int) =~= all);
    }
    (rows, failed)
}

fn push_unfilled(rows: &mut Vec<Repository>, registry: &str, names: &Vec<String>)
    ensures
        views(final(rows)@) == views(old(rows)@) + unfilled(registry@, texts(names@)),
{
    let ghost was = views(rows@);
    let ghost all = texts(names@);
    let mut i: usize = 0;
    proof {
        assert(unfilled(registry@, all.take(0)) =~= Seq::<RepositoryView>::empty());
        assert(was + unfilled(registry@, all.take(0)) =~= was);
    }
    while i < names.len()
        invariant
            i <= names@.len(),
            all == texts(names@),
            views(rows@) == was + unfilled(registry@, all.take(i as int)),
        decreases names@.len() - i,
    {
        let ghost before = rows@;
        let row = Repository::unfilled(registry, names[i].as_str());
        let ghost said = row@;
        rows.push(row);
        proof {
            assert(views(rows@) =~= views(before).push(said));
            assert(unfilled(registry@, all.take(i + 1)) =~= unfilled(
                registry@,
                all.take(i as int),
            ).push(said));
            assert(views(rows@) =~= was + unfilled(registry@, all.take(i + 1)));
        }
        i = i + 1;
    }
    proof {
        assert(all.take(all.len() as int) =~= all);
    }
}

/// The repositories of the catalogs that answered, and what the others said.
#[must_use]
pub fn gather_catalogs(
    registries: &Vec<Registry>,
    catalogs: &Vec<Result<Vec<String>, ReadFailure>>,
) -> (r: (Vec<Repository>, Vec<String>))
    requires
        catalogs@.len() <= registries@.len(),
    ensures
        views(r.0@) == repositories_of(views(registries@), catalogs_said(catalogs@)),
        texts(r.1@) == refusals_of(catalogs_said(catalogs@)),
{
    let ghost all = catalogs_said(catalogs@);
    let ghost held = views(registries@);
    let mut rows: Vec<Repository> = Vec::new();
    let mut failed: Vec<String> = Vec::new();
    let mut i: usize = 0;
    proof {
        assert(views(rows@) =~= Seq::<RepositoryView>::empty());
        assert(texts(failed@) =~= Seq::<Seq<char>>::empty());
        assert(all.take(0) =~= Seq::<Result<Seq<Seq<char>>, FailureView>>::empty());
    }
    while i < catalogs.len()
        invariant
            i <= catalogs@.len() <= registries@.len(),
            all == catalogs_said(catalogs@),
            held == views(registries@),
            views(rows@) == repositories_of(held, all.take(i as int)),
            texts(failed@) == refusals_of(all.take(i as int)),
        decreases catalogs@.len() - i,
    {
        proof {
            assert(all.take(i + 1).drop_last() =~= all.take(i as int));
            assert(all.take(i + 1).last() == acr::names_said(catalogs@[i as int]));
            assert(held[i as int] == registries@[i as int]@);
        }
        match &catalogs[i] {
            Ok(names) => push_unfilled(&mut rows, registries[i].name.as_str(), names),
            Err(error) => {
                let ghost before = failed@;
                failed.push(error.text.clone());
                proof {
                    assert(texts(failed@) =~= texts(before).push(error.text@));
                }
            },
        }
        i = i + 1;
    }
    proof {
        assert(all.take(all.len() as int) =~= all);
    }
    (rows, failed)
}

fn names_one<T: Named>(held: &Vec<T>, name: &str) -> (r: bool)
    ensures
        r == names_of(held@).contains(name@),
{
    let mut i: usize = 0;
    while i < held.len()
        invariant
            i <= held@.len(),
            forall|k: int| 0 <= k < i ==> (#[trigger] held@[k]).name_text() != name@,
        decreases held@.len() - i,
    {
        if equal(held[i].name(), name) {
            proof {
                assert(names_of(held@)[i as int] == name@);
            }
            return true;
        }
        i = i + 1;
    }
    proof {
        assert forall|k: int| 0 <= k < names_of(held@).len() implies names_of(held@)[k]
            != name@ by {
            assert(names_of(held@)[k] == held@[k].name_text());
        }
    }
    false
}

fn keep_rows(rows: &Vec<SecretRow>, vaults: &Vec<Vault>, all: bool) -> (r: Vec<SecretRow>)
    ensures
        views(r@) == rows_within(views(rows@), views(vaults@), all),
{
    let ghost held = views(rows@);
    let mut out: Vec<SecretRow> = Vec::new();
    let mut i: usize = 0;
    proof {
        assert(views(out@) =~= Seq::<SecretRowView>::empty());
        assert(held.take(0) =~= Seq::<SecretRowView>::empty());
        assert(names_of(vaults@) =~= vault_names(views(vaults@)));
    }
    while i < rows.len()
        invariant
            i <= rows@.len(),
            held == views(rows@),
            names_of(vaults@) == vault_names(views(vaults@)),
            views(out@) == rows_within(held.take(i as int), views(vaults@), all),
        decreases rows@.len() - i,
    {
        proof {
            assert(held.take(i + 1).drop_last() =~= held.take(i as int));
            assert(held.take(i + 1).last() == rows@[i as int]@);
        }
        if all || names_one(vaults, rows[i].vault.as_str()) {
            let ghost before = out@;
            out.push(rows[i].copy());
            proof {
                assert(views(out@) =~= views(before).push(rows@[i as int]@));
            }
        }
        i = i + 1;
    }
    proof {
        assert(held.take(held.len() as int) =~= held);
    }
    out
}

fn keep_repositories(rows: &Vec<Repository>, registries: &Vec<Registry>, all: bool) -> (r: Vec<
    Repository,
>)
    ensures
        views(r@) == repositories_within(views(rows@), views(registries@), all),
{
    let ghost held = views(rows@);
    let mut out: Vec<Repository> = Vec::new();
    let mut i: usize = 0;
    proof {
        assert(views(out@) =~= Seq::<RepositoryView>::empty());
        assert(held.take(0) =~= Seq::<RepositoryView>::empty());
        assert(names_of(registries@) =~= registry_names(views(registries@)));
    }
    while i < rows.len()
        invariant
            i <= rows@.len(),
            held == views(rows@),
            names_of(registries@) == registry_names(views(registries@)),
            views(out@) == repositories_within(held.take(i as int), views(registries@), all),
        decreases rows@.len() - i,
    {
        proof {
            assert(held.take(i + 1).drop_last() =~= held.take(i as int));
            assert(held.take(i + 1).last() == rows@[i as int]@);
        }
        if all || names_one(registries, rows[i].registry.as_str()) {
            let ghost before = out@;
            out.push(rows[i].clone());
            proof {
                assert(views(out@) =~= views(before).push(rows@[i as int]@));
            }
        }
        i = i + 1;
    }
    proof {
        assert(held.take(held.len() as int) =~= held);
    }
    out
}

/// The vaults a command reads, of those found.
pub fn narrow_vaults(found: Vec<Vault>, azure: &Azure, only: &Vec<String>) -> (r: Result<
    Vec<Vault>,
    Failure,
>)
    ensures
        super::narrow_said(r) == vaults_for(views(found@), azure@, texts(only@)),
{
    proof {
        super::lemma_narrowed_views(
            found@,
            names_of(found@),
            azure@.vaults,
            texts(only@),
            "vault"@,
        );
        assert(names_of(found@) =~= vault_names(views(found@)));
    }
    narrow(found, &azure.vaults, only, "vault")
}

/// The registries a command reads, of those found.
pub fn narrow_registries(found: Vec<Registry>, azure: &Azure, only: &Vec<String>) -> (r: Result<
    Vec<Registry>,
    Failure,
>)
    ensures
        super::narrow_said(r) == registries_for(views(found@), azure@, texts(only@)),
{
    proof {
        super::lemma_narrowed_views(
            found@,
            names_of(found@),
            azure@.registries,
            texts(only@),
            "registry"@,
        );
        assert(names_of(found@) =~= registry_names(views(found@)));
    }
    narrow(found, &azure.registries, only, "registry")
}

/// What a read of rows came to.
pub open spec fn read_said<T: View>(result: Result<(Vec<T>, Vec<String>), Failure>) -> Result<
    (Seq<T::V>, Seq<Seq<char>>),
    ReasonView,
> {
    match result {
        Ok((rows, failed)) => Ok((views(rows@), texts(failed@))),
        Err(failure) => Err(failure@),
    }
}

/// Every secret in every allowed vault, from the cache or from Azure, and what
/// the vaults that would not answer said.
pub fn read_secrets<T: TokenSource, H: Transport, C: Clock>(
    client: &mut Client<T, H, C>,
    context: &Context,
    only: &Vec<String>,
    refresh: bool,
) -> (r: Result<(Vec<SecretRow>, Vec<String>), Failure>)
    ensures
        (final(client)@, read_said(r)) == secrets_read(
            old(client)@,
            *context,
            texts(only@),
            refresh,
        ),
{
    proof {
        assert(texts(only@).len() == only@.len());
        assert(context.azure@.vaults.len() == context.azure.vaults@.len());
    }
    if !refresh {
        if let Some(CachedTab::Secrets { vaults, secrets, .. }) = context.cached(SECRETS_TAB) {
            let vaults = match narrow_vaults(copy_all(vaults), context.azure, only) {
                Ok(vaults) => vaults,
                Err(failure) => return Err(failure),
            };
            let all = only.len() == 0 && context.azure.vaults.len() == 0;
            let failed: Vec<String> = Vec::new();
            proof {
                assert(texts(failed@) =~= Seq::<Seq<char>>::empty());
            }
            return Ok((keep_rows(secrets, &vaults, all), failed));
        }
    }
    let found = match inventory(client, context, refresh) {
        Ok(inventory) => inventory.vaults,
        Err(error) => return Err(Failure::of_read(&error)),
    };
    let vaults = match narrow_vaults(found, context.azure, only) {
        Ok(vaults) => vaults,
        Err(failure) => return Err(failure),
    };
    proof {
        assert(views(vaults@).len() == vaults@.len());
    }
    Ok(gather(list_vaults(client, &vaults)))
}

/// Every repository in every allowed registry, from the cache or from Azure,
/// and what the registries that would not answer said.
pub fn read_repositories<T: TokenSource, H: Transport, C: Clock>(
    client: &mut Client<T, H, C>,
    context: &Context,
    only: &Vec<String>,
    refresh: bool,
) -> (r: Result<(Vec<Repository>, Vec<String>), Failure>)
    ensures
        (final(client)@, read_said(r)) == repositories_read(
            old(client)@,
            *context,
            texts(only@),
            refresh,
        ),
{
    proof {
        assert(texts(only@).len() == only@.len());
        assert(context.azure@.registries.len() == context.azure.registries@.len());
    }
    if !refresh {
        if let Some(CachedTab::Registries { registries, repositories, .. }) = context.cached(
            REGISTRIES_TAB,
        ) {
            let registries = match narrow_registries(copy_all(registries), context.azure, only) {
                Ok(registries) => registries,
                Err(failure) => return Err(failure),
            };
            let all = only.len() == 0 && context.azure.registries.len() == 0;
            let failed: Vec<String> = Vec::new();
            proof {
                assert(texts(failed@) =~= Seq::<Seq<char>>::empty());
            }
            return Ok((keep_repositories(repositories, &registries, all), failed));
        }
    }
    let found = match inventory(client, context, refresh) {
        Ok(inventory) => inventory.registries,
        Err(error) => return Err(Failure::of_read(&error)),
    };
    let registries = match narrow_registries(found, context.azure, only) {
        Ok(registries) => registries,
        Err(failure) => return Err(failure),
    };
    proof {
        assert(views(registries@).len() == registries@.len());
    }
    let catalogs = list_catalogs(client, &registries);
    Ok(gather_catalogs(&registries, &catalogs))
}

} // verus!
