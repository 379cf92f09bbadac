//! The snapshot the next start paints from, before any network call.
//!
//! Names and metadata only: no value ever reaches it, and none can, because
//! nothing it is made of has a place for one. A pod carries names, statuses,
//! images and owners; a configmap's data, a cluster secret's keys and a log
//! line are types this module does not name either.
//!
//! One entry per tab, under the same key the session uses. A tab nothing has
//! read is not in it.

use vstd::prelude::*;

use crate::azure::{Inventory, Registry, Repository, SecretRow, Vault};
use crate::config::{REGISTRIES_TAB, SECRETS_TAB};
use crate::kube::Pod;
use crate::store::AzureStore;
use crate::text::equal;
use crate::timestamp::Timestamp;

verus! {

/// The schema this build writes. A file of any other version is ignored rather
/// than migrated: it is a cache, and the next refresh rewrites it. 2 keyed the
/// file by tab and merged the pod lists in; a version-1 file is ignored, and
/// the refresh behind the first frame rewrites it.
pub const VERSION: u32 = 2;

/// One tab's last read.
#[derive(Debug)]
pub enum CachedTab {
    Scope { read_at: Timestamp, pods: Vec<Pod> },
    Secrets { read_at: Timestamp, vaults: Vec<Vault>, secrets: Vec<SecretRow> },
    Registries { read_at: Timestamp, registries: Vec<Registry>, repositories: Vec<Repository> },
}

#[derive(Debug)]
pub struct Snapshot {
    pub version: u32,
    /// Each tab's last read, by the tab's key. A key stands here once.
    pub tabs: Vec<(String, CachedTab)>,
}

/// What is on file under a key.
pub open spec fn tab_under(tabs: Seq<(String, CachedTab)>, key: Seq<char>) -> Option<CachedTab>
    decreases tabs.len(),
{
    if tabs.len() == 0 {
        None
    } else if tabs[0].0@ == key {
        Some(tabs[0].1)
    } else {
        tab_under(tabs.skip(1), key)
    }
}

impl Snapshot {
    #[must_use]
    pub fn new(tabs: Vec<(String, CachedTab)>) -> (r: Self)
        ensures
            r == (Snapshot { version: VERSION, tabs }),
    {
        Snapshot { version: VERSION, tabs }
    }

    /// The snapshot, or nothing at all where another version wrote it.
    #[must_use]
    pub fn known(self) -> (r: Option<Self>)
        ensures
            r == if self.version == VERSION {
                Some(self)
            } else {
                None::<Snapshot>
            },
    {
        if self.version == VERSION {
            Some(self)
        } else {
            None
        }
    }

    /// What is on file for a tab.
    #[must_use]
    pub fn get(&self, key: &str) -> (r: Option<&CachedTab>)
        ensures
            r == match tab_under(self.tabs@, key@) {
                Some(tab) => Some(&tab),
                None => None::<&CachedTab>,
            },
    {
        let mut i: usize = 0;
        proof {
            assert(self.tabs@.skip(0) =~= self.tabs@);
        }
        while i < self.tabs.len()
            invariant
                i <= self.tabs@.len(),
                tab_under(self.tabs@, key@) == tab_under(self.tabs@.skip(i as int), key@),
            decreases self.tabs@.len() - i,
        {
            proof {
                assert(self.tabs@.skip(i as int).skip(1) =~= self.tabs@.skip(i + 1));
            }
            if equal(self.tabs[i].0.as_str(), key) {
                return Some(&self.tabs[i].1);
            }
            i = i + 1;
        }
        None
    }
}

impl CachedTab {
    /// When the tab was read.
    pub open spec fn moment(self) -> Timestamp {
        match self {
            CachedTab::Scope { read_at, .. } => read_at,
            CachedTab::Secrets { read_at, .. } => read_at,
            CachedTab::Registries { read_at, .. } => read_at,
        }
    }

    #[must_use]
    pub fn read_at(&self) -> (r: Timestamp)
        ensures
            r == self.moment(),
    {
        match self {
            CachedTab::Scope { read_at, .. } => *read_at,
            CachedTab::Secrets { read_at, .. } => *read_at,
            CachedTab::Registries { read_at, .. } => *read_at,
        }
    }

    /// The two fixed tabs from one Azure read, each under its key. The
    /// inventory is split between them; [`from_cache`] puts it back together.
    #[must_use]
    pub fn azure(
        read_at: Timestamp,
        inventory: Inventory,
        secrets: Vec<SecretRow>,
        repositories: Vec<Repository>,
    ) -> (r: [(String, CachedTab); 2])
        ensures
            r@[0].0@ == SECRETS_TAB@,
            r@[0].1 == (CachedTab::Secrets { read_at, vaults: inventory.vaults, secrets }),
            r@[1].0@ == REGISTRIES_TAB@,
            r@[1].1 == (CachedTab::Registries {
                read_at,
                registries: inventory.registries,
                repositories,
            }),
    {
        [
            (
                SECRETS_TAB.to_owned(),
                CachedTab::Secrets { read_at, vaults: inventory.vaults, secrets },
            ),
            (
                REGISTRIES_TAB.to_owned(),
                CachedTab::Registries {
                    read_at,
                    registries: inventory.registries,
                    repositories,
                },
            ),
        ]
    }
}

/// Whether what was read at a moment is still an answer now, with the seconds
/// it is good for. Nought is for ever.
pub open spec fn is_fresh(read_at: Timestamp, good_for: u64, now: Timestamp) -> bool {
    let age = crate::timestamp::seconds_between(read_at, now);
    good_for == 0 || 0 <= age < good_for
}

/// Whether what was read at a moment is still an answer now.
#[must_use]
pub fn fresh(read_at: Timestamp, good_for: u64, now: Timestamp) -> (r: bool)
    ensures
        r == is_fresh(read_at, good_for, now),
{
    if good_for == 0 {
        return true;
    }
    let age: i64 = read_at.seconds_until(now);
    age >= 0 && (age as u64) < good_for
}

/// The earlier of two moments, where both are known.
pub open spec fn earlier(a: Option<Timestamp>, b: Option<Timestamp>) -> Option<Timestamp> {
    match (a, b) {
        (Some(a), Some(b)) => Some(
            if a.seconds <= b.seconds {
                a
            } else {
                b
            },
        ),
        (Some(a), None) => Some(a),
        (None, b) => b,
    }
}

/// Whether a store holds what the two Azure tabs had, as old as the older of
/// them, and nothing else.
pub open spec fn put_back(
    store: AzureStore,
    secrets: Option<CachedTab>,
    registries: Option<CachedTab>,
) -> bool {
    &&& match secrets {
        Some(CachedTab::Secrets { read_at, vaults, secrets }) => store.inventory.vaults == vaults
            && store.secrets == secrets,
        _ => store.inventory.vaults@.len() == 0 && store.secrets@.len() == 0,
    }
    &&& match registries {
        Some(CachedTab::Registries { read_at, registries, repositories }) =>
            store.inventory.registries == registries && store.repositories == repositories,
        _ => store.inventory.registries@.len() == 0 && store.repositories@.len() == 0,
    }
    &&& store.read_at == earlier(
        match secrets {
            Some(CachedTab::Secrets { read_at, .. }) => Some(read_at),
            _ => None,
        },
        match registries {
            Some(CachedTab::Registries { read_at, .. }) => Some(read_at),
            _ => None,
        },
    )
    &&& store.problems@.len() == 0
    &&& store.tags@.len() == 0
    &&& store.manifests@.len() == 0
    &&& store.versions@.len() == 0
    &&& !store.refreshing
}

/// The store the first frame is painted from: what the two Azure tabs had.
#[must_use]
pub fn from_cache(secrets: Option<CachedTab>, registries: Option<CachedTab>) -> (r: AzureStore)
    ensures
        put_back(r, secrets, registries),
{
    let mut store = AzureStore::default();
    let mut first: Option<Timestamp> = None;
    if let Some(CachedTab::Secrets { read_at, vaults, secrets }) = secrets {
        store.inventory.vaults = vaults;
        store.secrets = secrets;
        first = Some(read_at);
    }
    let mut second: Option<Timestamp> = None;
    if let Some(CachedTab::Registries { read_at, registries, repositories }) = registries {
        store.inventory.registries = registries;
        store.repositories = repositories;
        second = Some(read_at);
    }
    store.read_at = match (first, second) {
        (Some(a), Some(b)) => if a.seconds <= b.seconds {
            Some(a)
        } else {
            Some(b)
        },
        (Some(a), None) => Some(a),
        (None, b) => b,
    };
    store
}

/// What one Azure read left in the snapshot comes back out of it: the same
/// inventory, the same rows, the same moment.
pub proof fn law_an_azure_read_survives_the_cache(
    read_at: Timestamp,
    inventory: Inventory,
    secrets: Vec<SecretRow>,
    repositories: Vec<Repository>,
    store: AzureStore,
)
    requires
        put_back(
            store,
            Some(CachedTab::Secrets { read_at, vaults: inventory.vaults, secrets }),
            Some(
                CachedTab::Registries { read_at, registries: inventory.registries, repositories },
            ),
        ),
    ensures
        store.inventory.vaults == inventory.vaults,
        store.inventory.registries == inventory.registries,
        store.secrets == secrets,
        store.repositories == repositories,
        store.read_at == Some(read_at),
{
}

} // verus!
