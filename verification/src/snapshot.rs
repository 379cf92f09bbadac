//! What a run leaves on file for the next start: each tab's last read, under
//! the tab's key.

use vstd::prelude::*;

use crate::app::screen::Tab;
use crate::azure::allow::copy_all;
use crate::azure::{
    views, RegistryView, Repository, RepositoryView, SecretRow, SecretRowView, VaultView,
};
use crate::cache::{put_back, CachedTab, Snapshot};
use crate::config::{ScopeTab, REGISTRIES_TAB, SECRETS_TAB};
use crate::kube::{Pod, PodView};
use crate::store::{AzureStore, Store};
use crate::text::equal;
use crate::timestamp::Timestamp;

verus! {

pub enum CachedView {
    Scope { read_at: Timestamp, pods: Seq<PodView> },
    Secrets { read_at: Timestamp, vaults: Seq<VaultView>, secrets: Seq<SecretRowView> },
    Registries {
        read_at: Timestamp,
        registries: Seq<RegistryView>,
        repositories: Seq<RepositoryView>,
    },
}

impl View for CachedTab {
    type V = CachedView;

    open spec fn view(&self) -> CachedView {
        match self {
            CachedTab::Scope { read_at, pods } => CachedView::Scope {
                read_at: *read_at,
                pods: views(pods@),
            },
            CachedTab::Secrets { read_at, vaults, secrets } => CachedView::Secrets {
                read_at: *read_at,
                vaults: views(vaults@),
                secrets: views(secrets@),
            },
            CachedTab::Registries { read_at, registries, repositories } => CachedView::Registries {
                read_at: *read_at,
                registries: views(registries@),
                repositories: views(repositories@),
            },
        }
    }
}

/// What is on file, by key.
pub open spec fn on_file(tabs: Seq<(String, CachedTab)>) -> Map<Seq<char>, CachedView>
    decreases tabs.len(),
{
    if tabs.len() == 0 {
        Map::empty()
    } else {
        on_file(tabs.skip(1)).insert(tabs[0].0@, tabs[0].1@)
    }
}

/// Whether no key stands twice.
pub open spec fn keyed_once(tabs: Seq<(String, CachedTab)>) -> bool {
    forall|i: int, j: int|
        0 <= i < j < tabs.len() ==> (#[trigger] tabs[i]).0@ != (#[trigger] tabs[j]).0@
}

/// What the tab at a place in the bar has read, if it has read anything.
pub open spec fn tab_read(tab: Tab, at: int, store: Store) -> Option<CachedView> {
    match tab {
        Tab::Scope(_) => if 0 <= at < store.scopes@.len() {
            match store.scopes@[at].pods.read_at {
                Some(read_at) => Some(
                    CachedView::Scope { read_at, pods: views(store.scopes@[at].pods.rows@) },
                ),
                None => None,
            }
        } else {
            None
        },
        Tab::Secrets => match store.azure.read_at {
            Some(read_at) => Some(
                CachedView::Secrets {
                    read_at,
                    vaults: views(store.azure.inventory.vaults@),
                    secrets: views(store.azure.secrets@),
                },
            ),
            None => None,
        },
        Tab::Registries => match store.azure.read_at {
            Some(read_at) => Some(
                CachedView::Registries {
                    read_at,
                    registries: views(store.azure.inventory.registries@),
                    repositories: views(store.azure.repositories@),
                },
            ),
            None => None,
        },
    }
}

/// What every tab has read, by key; of two tabs under one key, the later.
pub open spec fn tabs_read(tabs: Seq<Tab>, store: Store) -> Map<Seq<char>, CachedView>
    decreases tabs.len(),
{
    if tabs.len() == 0 {
        Map::empty()
    } else {
        let before = tabs_read(tabs.drop_last(), store);
        match tab_read(tabs.last(), tabs.len() - 1, store) {
            Some(read) => before.insert(tabs.last().key_text(), read),
            None => before,
        }
    }
}

proof fn lemma_a_new_key_is_added(tabs: Seq<(String, CachedTab)>, entry: (String, CachedTab))
    requires
        forall|i: int| 0 <= i < tabs.len() ==> (#[trigger] tabs[i]).0@ != entry.0@,
    ensures
        on_file(tabs.push(entry)) == on_file(tabs).insert(entry.0@, entry.1@),
    decreases tabs.len(),
{
    if tabs.len() == 0 {
        let rest = tabs.push(entry).skip(1);
        assert(rest.len() == 0);
        assert(on_file(rest) == Map::<Seq<char>, CachedView>::empty());
        assert(on_file(tabs) == Map::<Seq<char>, CachedView>::empty());
        assert(tabs.push(entry)[0] == entry);
    } else {
        assert(tabs[0].0@ != entry.0@);
        assert forall|i: int| 0 <= i < tabs.skip(1).len() implies (#[trigger] tabs.skip(1)[i]).0@
            != entry.0@ by {
            assert(tabs[i + 1].0@ != entry.0@);
        }
        lemma_a_new_key_is_added(tabs.skip(1), entry);
        assert(tabs.push(entry).skip(1) =~= tabs.skip(1).push(entry));
        assert(tabs.push(entry)[0] == tabs[0]);
    }
    assert(on_file(tabs.push(entry)) =~= on_file(tabs).insert(entry.0@, entry.1@));
}

proof fn lemma_a_held_key_is_replaced(
    tabs: Seq<(String, CachedTab)>,
    at: int,
    entry: (String, CachedTab),
)
    requires
        0 <= at < tabs.len(),
        tabs[at].0@ == entry.0@,
        forall|i: int| 0 <= i < at ==> (#[trigger] tabs[i]).0@ != entry.0@,
    ensures
        on_file(tabs.update(at, entry)) == on_file(tabs).insert(entry.0@, entry.1@),
    decreases tabs.len(),
{
    if at == 0 {
        assert(tabs.update(at, entry).skip(1) =~= tabs.skip(1));
    } else {
        assert(tabs[0].0@ != entry.0@);
        assert forall|i: int| 0 <= i < at - 1 implies (#[trigger] tabs.skip(1)[i]).0@
            != entry.0@ by {
            assert(tabs[i + 1].0@ != entry.0@);
        }
        lemma_a_held_key_is_replaced(tabs.skip(1), at - 1, entry);
        assert(tabs.update(at, entry).skip(1) =~= tabs.skip(1).update(at - 1, entry));
        assert(tabs.update(at, entry)[0] == tabs[0]);
    }
    assert(on_file(tabs.update(at, entry)) =~= on_file(tabs).insert(entry.0@, entry.1@));
}

/// Puts a tab on file under its key, over whatever stood there.
fn put(tabs: &mut Vec<(String, CachedTab)>, key: String, tab: CachedTab)
    requires
        keyed_once(old(tabs)@),
    ensures
        keyed_once(final(tabs)@),
        on_file(final(tabs)@) == on_file(old(tabs)@).insert(key@, tab@),
{
    let ghost before = tabs@;
    let ghost entry = (key, tab);
    let mut at: usize = 0;
    while at < tabs.len() && !equal(tabs[at].0.as_str(), key.as_str())
        invariant
            at <= tabs@.len(),
            tabs@ == before,
            forall|i: int| 0 <= i < at ==> (#[trigger] before[i]).0@ != key@,
        decreases tabs@.len() - at,
    {
        at = at + 1;
    }
    if at < tabs.len() {
        proof {
            lemma_a_held_key_is_replaced(before, at as int, entry);
        }
        tabs.set(at, (key, tab));
    } else {
        proof {
            lemma_a_new_key_is_added(before, entry);
        }
        tabs.push((key, tab));
    }
}

fn copy_pods(held: &Vec<Pod>) -> (r: Vec<Pod>)
    ensures
        views(r@) == views(held@),
{
    let mut out: Vec<Pod> = Vec::new();
    let mut i: usize = 0;
    while i < held.len()
        invariant
            i <= held@.len(),
            out@.len() == i,
            forall|k: int| 0 <= k < i ==> (#[trigger] out@[k])@ == held@[k]@,
        decreases held@.len() - i,
    {
        out.push(held[i].copy());
        i = i + 1;
    }
    proof {
        assert(views(out@) =~= views(held@));
    }
    out
}

fn copy_secrets(held: &Vec<SecretRow>) -> (r: Vec<SecretRow>)
    ensures
        views(r@) == views(held@),
{
    let mut out: Vec<SecretRow> = Vec::new();
    let mut i: usize = 0;
    while i < held.len()
        invariant
            i <= held@.len(),
            out@.len() == i,
            forall|k: int| 0 <= k < i ==> (#[trigger] out@[k])@ == held@[k]@,
        decreases held@.len() - i,
    {
        out.push(held[i].copy());
        i = i + 1;
    }
    proof {
        assert(views(out@) =~= views(held@));
    }
    out
}

fn copy_repositories(held: &Vec<Repository>) -> (r: Vec<Repository>)
    ensures
        views(r@) == views(held@),
{
    let mut out: Vec<Repository> = Vec::new();
    let mut i: usize = 0;
    while i < held.len()
        invariant
            i <= held@.len(),
            out@.len() == i,
            forall|k: int| 0 <= k < i ==> (#[trigger] out@[k])@ == held@[k]@,
        decreases held@.len() - i,
    {
        out.push(held[i].clone());
        i = i + 1;
    }
    proof {
        assert(views(out@) =~= views(held@));
    }
    out
}


impl Store {
    /// What the tab at a place in the bar has read.
    fn cached(&self, tab: &Tab, at: usize) -> (r: Option<CachedTab>)
        ensures
            match r {
                Some(read) => tab_read(*tab, at as int, *self) == Some(read@),
                None => tab_read(*tab, at as int, *self) is None,
            },
    {
        match tab {
            Tab::Scope(_) => {
                if at >= self.scopes.len() {
                    return None;
                }
                match self.scopes[at].pods.read_at {
                    Some(read_at) => Some(
                        CachedTab::Scope { read_at, pods: copy_pods(&self.scopes[at].pods.rows) },
                    ),
                    None => None,
                }
            },
            Tab::Secrets => match self.azure.read_at {
                Some(read_at) => Some(
                    CachedTab::Secrets {
                        read_at,
                        vaults: copy_all(&self.azure.inventory.vaults),
                        secrets: copy_secrets(&self.azure.secrets),
                    },
                ),
                None => None,
            },
            Tab::Registries => match self.azure.read_at {
                Some(read_at) => Some(
                    CachedTab::Registries {
                        read_at,
                        registries: copy_all(&self.azure.inventory.registries),
                        repositories: copy_repositories(&self.azure.repositories),
                    },
                ),
                None => None,
            },
        }
    }

    /// Everything that has been read, for the next start. A tab nothing has
    /// read is not in it.
    #[must_use]
    pub fn snapshot(&self, tabs: &Vec<Tab>) -> (r: Snapshot)
        ensures
            r.version == crate::cache::VERSION,
            keyed_once(r.tabs@),
            on_file(r.tabs@) == tabs_read(tabs@, *self),
    {
        let mut out: Vec<(String, CachedTab)> = Vec::new();
        let mut at: usize = 0;
        proof {
            assert(tabs@.take(0) =~= Seq::<Tab>::empty());
        }
        while at < tabs.len()
            invariant
                at <= tabs@.len(),
                keyed_once(out@),
                on_file(out@) == tabs_read(tabs@.take(at as int), *self),
            decreases tabs@.len() - at,
        {
            proof {
                assert(tabs@.take(at + 1).drop_last() =~= tabs@.take(at as int));
                assert(tabs@.take(at + 1).last() == tabs@[at as int]);
            }
            if let Some(read) = self.cached(&tabs[at], at) {
                put(&mut out, tabs[at].key(), read);
            }
            at = at + 1;
        }
        proof {
            assert(tabs@.take(tabs@.len() as int) =~= tabs@);
        }
        Snapshot::new(out)
    }
}

/// A tab whose key no other tab has is on file exactly as it was read, and not
/// at all where nothing has read it.
pub proof fn law_a_tab_is_on_file_as_it_was_read(tabs: Seq<Tab>, store: Store, at: int)
    requires
        0 <= at < tabs.len(),
        forall|i: int|
            0 <= i < tabs.len() && i != at ==> (#[trigger] tabs[i]).key_text()
                != tabs[at].key_text(),
    ensures
        match tab_read(tabs[at], at, store) {
            Some(read) => tabs_read(tabs, store).dom().contains(tabs[at].key_text()) && tabs_read(
                tabs,
                store,
            )[tabs[at].key_text()] == read,
            None => !tabs_read(tabs, store).dom().contains(tabs[at].key_text()),
        },
    decreases tabs.len(),
{
    let key = tabs[at].key_text();
    let before = tabs.drop_last();
    if at == tabs.len() - 1 {
        assert forall|i: int| 0 <= i < before.len() implies (#[trigger] before[i]).key_text()
            != key by {
            assert(tabs[i].key_text() != key);
        }
        lemma_an_unknown_key_is_not_on_file(before, store, key);
    } else {
        assert(before[at] == tabs[at]);
        assert forall|i: int| 0 <= i < before.len() && i != at implies (
        #[trigger] before[i]).key_text() != before[at].key_text() by {
            assert(tabs[i].key_text() != key);
        }
        law_a_tab_is_on_file_as_it_was_read(before, store, at);
        assert(tabs[tabs.len() - 1].key_text() != key);
    }
}

proof fn lemma_an_unknown_key_is_not_on_file(tabs: Seq<Tab>, store: Store, key: Seq<char>)
    requires
        forall|i: int| 0 <= i < tabs.len() ==> (#[trigger] tabs[i]).key_text() != key,
    ensures
        !tabs_read(tabs, store).dom().contains(key),
    decreases tabs.len(),
{
    if tabs.len() > 0 {
        let before = tabs.drop_last();
        assert forall|i: int| 0 <= i < before.len() implies (#[trigger] before[i]).key_text()
            != key by {
            assert(tabs[i].key_text() != key);
        }
        lemma_an_unknown_key_is_not_on_file(before, store, key);
        assert(tabs[tabs.len() - 1].key_text() != key);
    }
}

/// The next start paints what this run read: the same inventory, the same
/// rows, as old as they are.
pub proof fn law_the_next_start_paints_what_was_read(
    scopes: Seq<ScopeTab>,
    store: Store,
    read_at: Timestamp,
    secrets: CachedTab,
    registries: CachedTab,
    next: AzureStore,
)
    requires
        store.azure.read_at == Some(read_at),
        ({
            let bar = scopes.map_values(|tab: ScopeTab| Tab::Scope(tab)).push(Tab::Secrets).push(
                Tab::Registries,
            );
            &&& secrets@ == tabs_read(bar, store)[SECRETS_TAB@]
            &&& registries@ == tabs_read(bar, store)[REGISTRIES_TAB@]
        }),
        put_back(next, Some(secrets), Some(registries)),
    ensures
        views(next.inventory.vaults@) == views(store.azure.inventory.vaults@),
        views(next.inventory.registries@) == views(store.azure.inventory.registries@),
        views(next.secrets@) == views(store.azure.secrets@),
        views(next.repositories@) == views(store.azure.repositories@),
        next.read_at == Some(read_at),
{
    let front = scopes.map_values(|tab: ScopeTab| Tab::Scope(tab));
    let bar = front.push(Tab::Secrets).push(Tab::Registries);
    assert(bar.drop_last() =~= front.push(Tab::Secrets));
    assert(front.push(Tab::Secrets).drop_last() =~= front);
    let both = tabs_read(front.push(Tab::Secrets), store);
    assert(both[SECRETS_TAB@] == tab_read(Tab::Secrets, front.len() as int, store)->0);
    assert(tabs_read(bar, store) == both.insert(
        REGISTRIES_TAB@,
        tab_read(Tab::Registries, front.len() as int + 1, store)->0,
    ));
    assert(SECRETS_TAB@ != REGISTRIES_TAB@) by {
        reveal_strlit("secrets");
        reveal_strlit("registries");
        assert(SECRETS_TAB@.len() == 7);
        assert(REGISTRIES_TAB@.len() == 10);
    }
}

} // verus!
