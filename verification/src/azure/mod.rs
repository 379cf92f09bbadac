//! Azure, as this program reads it: the resources a login can reach, the
//! tokens each plane wants, and the one client that carries them.
//!
//! Everything here reads. The transport spells two verbs, `Get` and `Post`,
//! and neither writes.

pub mod acr;
pub mod allow;
pub mod answers;
pub mod auth;
pub mod encode;
pub mod failure;
pub mod fake;
pub mod graph;
pub mod json;
pub mod promises;
pub mod readings;
pub mod size;
pub mod transport;
pub mod vault;
pub mod waits;
pub mod write;

use vstd::prelude::*;

use crate::filter::pairs;
use crate::kube::said;
use crate::text::{lines, lines_of, texts};
use crate::timestamp::Timestamp;

verus! {

/// One key vault, as Resource Graph lists it.
#[derive(Debug, PartialEq, Eq)]
pub struct Vault {
    /// The full resource id, which is also what the portal link is built
    /// from.
    pub id: String,
    pub name: String,
    pub resource_group: String,
    pub location: String,
    /// The data-plane base, `https://kv-prod.vault.azure.net/`, trailing
    /// slash included.
    pub uri: String,
}

impl Clone for Vault {
    fn clone(&self) -> (r: Self)
        ensures
            r == *self,
    {
        Vault {
            id: self.id.clone(),
            name: self.name.clone(),
            resource_group: self.resource_group.clone(),
            location: self.location.clone(),
            uri: self.uri.clone(),
        }
    }
}

/// One container registry, as Resource Graph lists it.
#[derive(Debug, PartialEq, Eq)]
pub struct Registry {
    pub id: String,
    pub name: String,
    pub resource_group: String,
    pub location: String,
    /// The data-plane host, `acrprod.azurecr.io`.
    pub login_server: String,
}

impl Clone for Registry {
    fn clone(&self) -> (r: Self)
        ensures
            r == *self,
    {
        Registry {
            id: self.id.clone(),
            name: self.name.clone(),
            resource_group: self.resource_group.clone(),
            location: self.location.clone(),
            login_server: self.login_server.clone(),
        }
    }
}

/// One secret in one vault, as a listing describes it. A listing never
/// carries the value, which is the point of listing one.
#[derive(Debug, PartialEq, Eq)]
pub struct SecretRow {
    /// The vault's name, which is the row's first column.
    pub vault: String,
    /// The last path segment of the item's `id`.
    pub name: String,
    pub enabled: bool,
    pub created: Option<Timestamp>,
    pub updated: Option<Timestamp>,
    /// `attributes.exp`.
    pub expires: Option<Timestamp>,
    /// `attributes.nbf`.
    pub not_before: Option<Timestamp>,
    pub content_type: Option<String>,
    /// Sorted by key, so a row's tags read the same on every refresh.
    pub tags: Vec<(String, String)>,
    /// A certificate's backing secret, which the vault manages itself.
    pub managed: bool,
}

impl SecretRow {
    #[must_use]
    pub fn copy(&self) -> (r: Self)
        ensures
            r@ == self@,
    {
        SecretRow {
            vault: self.vault.clone(),
            name: self.name.clone(),
            enabled: self.enabled,
            created: self.created,
            updated: self.updated,
            expires: self.expires,
            not_before: self.not_before,
            content_type: crate::kube::copy_text(&self.content_type),
            tags: transport::copy_pairs(&self.tags),
            managed: self.managed,
        }
    }
}

/// One version of one secret. Read on demand, never cached to disk.
#[derive(Debug, PartialEq, Eq)]
pub struct SecretVersion {
    pub version: String,
    pub enabled: bool,
    pub created: Option<Timestamp>,
    pub updated: Option<Timestamp>,
    pub expires: Option<Timestamp>,
}

/// One repository in a registry. The counts and the stamps are `None` until
/// the attributes call fills them in: a catalog listing is names and nothing
/// else.
#[derive(Debug, PartialEq, Eq)]
pub struct Repository {
    pub registry: String,
    pub name: String,
    pub tag_count: Option<u64>,
    pub manifest_count: Option<u64>,
    pub created: Option<Timestamp>,
    pub updated: Option<Timestamp>,
}

impl Clone for Repository {
    fn clone(&self) -> (r: Self)
        ensures
            r == *self,
    {
        Repository {
            registry: self.registry.clone(),
            name: self.name.clone(),
            tag_count: self.tag_count,
            manifest_count: self.manifest_count,
            created: self.created,
            updated: self.updated,
        }
    }
}

impl Repository {
    /// A row as the catalog lists it: a name, and everything else still to
    /// come.
    #[must_use]
    pub fn unfilled(registry: &str, name: &str) -> (r: Self)
        ensures
            r.registry@ == registry@,
            r.name@ == name@,
            r.tag_count is None,
            r.manifest_count is None,
            r.created is None,
            r.updated is None,
    {
        Repository {
            registry: registry.to_owned(),
            name: name.to_owned(),
            tag_count: None,
            manifest_count: None,
            created: None,
            updated: None,
        }
    }
}

/// One tag, and the manifest it points at.
#[derive(Debug, PartialEq, Eq)]
pub struct Tag {
    pub name: String,
    pub digest: String,
    pub created: Option<Timestamp>,
    pub updated: Option<Timestamp>,
}

/// One manifest, by what it weighs and what it runs on. A multi-arch index
/// names no architecture.
#[derive(Debug, PartialEq, Eq)]
pub struct Manifest {
    pub digest: String,
    /// Bytes, as the registry counts them.
    pub size: Option<u64>,
    pub architecture: Option<String>,
    pub os: Option<String>,
    pub created: Option<Timestamp>,
    /// Every tag pointing at this manifest.
    pub tags: Vec<String>,
}

/// Everything the login can reach that this program knows about.
#[derive(Debug, PartialEq, Eq)]
pub struct Inventory {
    pub vaults: Vec<Vault>,
    pub registries: Vec<Registry>,
}

impl Default for Inventory {
    fn default() -> (r: Self)
        ensures
            r.vaults@.len() == 0,
            r.registries@.len() == 0,
    {
        Inventory { vaults: Vec::new(), registries: Vec::new() }
    }
}

// ---------------------------------------------------------------------------
// What each resource says
// ---------------------------------------------------------------------------

pub struct VaultView {
    pub id: Seq<char>,
    pub name: Seq<char>,
    pub resource_group: Seq<char>,
    pub location: Seq<char>,
    pub uri: Seq<char>,
}

impl View for Vault {
    type V = VaultView;

    open spec fn view(&self) -> VaultView {
        VaultView {
            id: self.id@,
            name: self.name@,
            resource_group: self.resource_group@,
            location: self.location@,
            uri: self.uri@,
        }
    }
}

pub struct RegistryView {
    pub id: Seq<char>,
    pub name: Seq<char>,
    pub resource_group: Seq<char>,
    pub location: Seq<char>,
    pub login_server: Seq<char>,
}

impl View for Registry {
    type V = RegistryView;

    open spec fn view(&self) -> RegistryView {
        RegistryView {
            id: self.id@,
            name: self.name@,
            resource_group: self.resource_group@,
            location: self.location@,
            login_server: self.login_server@,
        }
    }
}

pub struct SecretRowView {
    pub vault: Seq<char>,
    pub name: Seq<char>,
    pub enabled: bool,
    pub created: Option<Timestamp>,
    pub updated: Option<Timestamp>,
    pub expires: Option<Timestamp>,
    pub not_before: Option<Timestamp>,
    pub content_type: Option<Seq<char>>,
    pub tags: Seq<(Seq<char>, Seq<char>)>,
    pub managed: bool,
}

impl View for SecretRow {
    type V = SecretRowView;

    open spec fn view(&self) -> SecretRowView {
        SecretRowView {
            vault: self.vault@,
            name: self.name@,
            enabled: self.enabled,
            created: self.created,
            updated: self.updated,
            expires: self.expires,
            not_before: self.not_before,
            content_type: said(self.content_type),
            tags: pairs(self.tags@),
            managed: self.managed,
        }
    }
}

pub struct VersionView {
    pub version: Seq<char>,
    pub enabled: bool,
    pub created: Option<Timestamp>,
    pub updated: Option<Timestamp>,
    pub expires: Option<Timestamp>,
}

impl View for SecretVersion {
    type V = VersionView;

    open spec fn view(&self) -> VersionView {
        VersionView {
            version: self.version@,
            enabled: self.enabled,
            created: self.created,
            updated: self.updated,
            expires: self.expires,
        }
    }
}

pub struct RepositoryView {
    pub registry: Seq<char>,
    pub name: Seq<char>,
    pub tag_count: Option<u64>,
    pub manifest_count: Option<u64>,
    pub created: Option<Timestamp>,
    pub updated: Option<Timestamp>,
}

impl View for Repository {
    type V = RepositoryView;

    open spec fn view(&self) -> RepositoryView {
        RepositoryView {
            registry: self.registry@,
            name: self.name@,
            tag_count: self.tag_count,
            manifest_count: self.manifest_count,
            created: self.created,
            updated: self.updated,
        }
    }
}

pub struct TagView {
    pub name: Seq<char>,
    pub digest: Seq<char>,
    pub created: Option<Timestamp>,
    pub updated: Option<Timestamp>,
}

impl View for Tag {
    type V = TagView;

    open spec fn view(&self) -> TagView {
        TagView {
            name: self.name@,
            digest: self.digest@,
            created: self.created,
            updated: self.updated,
        }
    }
}

pub struct ManifestView {
    pub digest: Seq<char>,
    pub size: Option<u64>,
    pub architecture: Option<Seq<char>>,
    pub os: Option<Seq<char>>,
    pub created: Option<Timestamp>,
    pub tags: Seq<Seq<char>>,
}

impl View for Manifest {
    type V = ManifestView;

    open spec fn view(&self) -> ManifestView {
        ManifestView {
            digest: self.digest@,
            size: self.size,
            architecture: said(self.architecture),
            os: said(self.os),
            created: self.created,
            tags: texts(self.tags@),
        }
    }
}

/// What each item of a list says.
pub open spec fn views<T: View>(items: Seq<T>) -> Seq<T::V> {
    items.map_values(|item: T| item@)
}

pub struct InventoryView {
    pub vaults: Seq<VaultView>,
    pub registries: Seq<RegistryView>,
}

impl View for Inventory {
    type V = InventoryView;

    open spec fn view(&self) -> InventoryView {
        InventoryView { vaults: views(self.vaults@), registries: views(self.registries@) }
    }
}

/// A secret's value.
///
/// It has no `Debug`: a value that cannot be printed cannot reach a log line,
/// an error or a panic message by accident. [`Secret::expose`] is the one way
/// to read it and is meant to be conspicuous at the call site.
#[derive(PartialEq, Eq)]
pub struct Secret(String);

/// What stands in the place of a value wherever one would be printed.
pub open spec fn redacted() -> Seq<char> {
    "[redacted]"@
}

impl View for Secret {
    type V = Seq<char>;

    closed spec fn view(&self) -> Seq<char> {
        self.0@
    }
}

impl Secret {
    /// Wraps a value read out of a vault or a cluster.
    #[must_use]
    pub fn new(value: &str) -> (r: Self)
        ensures
            r@ == value@,
    {
        Secret(value.to_owned())
    }

    /// The value itself, for the one place that is about to show or copy it.
    #[must_use]
    pub fn expose(&self) -> (r: &str)
        ensures
            r@ == self@,
    {
        self.0.as_str()
    }

    /// What a log line or an error says in its place, whatever the value is.
    #[must_use]
    pub fn printed(&self) -> (r: String)
        ensures
            r@ == redacted(),
    {
        "[redacted]".to_owned()
    }

    /// How many lines the value has, for the details pane's `(+14 lines)`
    /// without reading the value out. An empty value counts as one.
    #[must_use]
    pub fn line_count(&self) -> (r: usize)
        ensures
            r == if lines_of(self@).len() == 0 {
                1
            } else {
                lines_of(self@).len() as int
            },
    {
        let all = lines(self.0.as_str());
        proof {
            assert(texts(all@).len() == all@.len());
        }
        if all.len() == 0 {
            1
        } else {
            all.len()
        }
    }
}

/// Where the portal shows a resource.
pub open spec fn portal_text(id: Seq<char>) -> Seq<char> {
    "https://portal.azure.com/#@/resource"@ + id
}

/// Where the portal shows one resource, for the key that opens it in a
/// browser. The `@` is the tenant, which the portal fills in from the session.
#[must_use]
pub fn portal_url(id: &str) -> (r: String)
    ensures
        r@ == portal_text(id@),
{
    let mut url = "https://portal.azure.com/#@/resource".to_owned();
    url.push_str(id);
    url
}

} // verus!
