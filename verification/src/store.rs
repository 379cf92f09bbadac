//! Everything that has been read and is on file.

use vstd::prelude::*;

use crate::azure::{Inventory, Manifest, Registry, Repository, Secret, SecretRow, SecretVersion, Tag, Vault};
use crate::kube::{self, ConfigMap, K8sEvent, Kind, Pod, SecretMeta};
use crate::text::equal;
use crate::timestamp::Timestamp;
use crate::worker;

verus! {

/// Something that would not be read, and what it said.
#[derive(Debug, PartialEq, Eq)]
pub struct Problem {
    /// The vault or the registry; nothing where it is the login itself.
    pub source: String,
    pub message: String,
}

impl Problem {
    pub open spec fn line(self) -> Seq<char> {
        if self.source@.len() == 0 {
            self.message@
        } else {
            self.source@ + ": "@ + self.message@
        }
    }
}

/// One problem as the status bar says it.
#[must_use]
pub fn problem_line(problem: &Problem) -> (r: String)
    ensures
        r@ == problem.line(),
{
    if problem.source.as_str().is_empty() {
        problem.message.clone()
    } else {
        let mut line = problem.source.clone();
        line.push_str(": ");
        line.push_str(problem.message.as_str());
        line
    }
}

/// The tags one repository answered with.
pub struct TagsRead {
    pub registry: String,
    pub repo: String,
    pub result: Result<Vec<Tag>, String>,
}

/// The manifest one digest answered with.
pub struct ManifestRead {
    pub registry: String,
    pub repo: String,
    pub digest: String,
    pub result: Result<Manifest, String>,
}

/// The versions one secret answered with.
pub struct VersionsRead {
    pub vault: String,
    pub name: String,
    pub result: Result<Vec<SecretVersion>, String>,
}

/// What a piece of news from the Azure worker touched.
pub enum Applied {
    /// Nothing on screen.
    Nothing,
    /// The status bar.
    Status,
    Secrets,
    Repositories,
    /// Something a details pane shows.
    Detail,
    /// A value, which is nobody's to keep but the screen's that asked.
    Value { vault: String, name: String, result: Result<(Secret, String), String> },
}

/// What a piece of news from the Azure worker touches.
pub open spec fn touched(event: worker::Event) -> Applied {
    match event {
        worker::Event::Inventory(Ok(_)) => Applied::Secrets,
        worker::Event::Secrets { result: Ok(_), .. } => Applied::Secrets,
        worker::Event::Repositories { result: Ok(_), .. } => Applied::Repositories,
        worker::Event::Repository { .. } => Applied::Repositories,
        worker::Event::Tags { .. } => Applied::Detail,
        worker::Event::Manifest { .. } => Applied::Detail,
        worker::Event::Versions { .. } => Applied::Detail,
        worker::Event::Value { vault, name, result } => Applied::Value { vault, name, result },
        _ => Applied::Status,
    }
}

/// What the vaults and the registries have answered.
pub struct AzureStore {
    pub inventory: Inventory,
    pub secrets: Vec<SecretRow>,
    pub repositories: Vec<Repository>,
    pub tags: Vec<TagsRead>,
    pub manifests: Vec<ManifestRead>,
    pub versions: Vec<VersionsRead>,
    pub problems: Vec<Problem>,
    pub refreshing: bool,
    pub progress: Option<String>,
    pub read_at: Option<Timestamp>,
}

impl Default for AzureStore {
    fn default() -> (r: Self)
        ensures
            r.inventory.vaults@.len() == 0,
            r.inventory.registries@.len() == 0,
            r.secrets@.len() == 0,
            r.repositories@.len() == 0,
            r.tags@.len() == 0,
            r.manifests@.len() == 0,
            r.versions@.len() == 0,
            r.problems@.len() == 0,
            !r.refreshing,
            r.progress is None,
            r.read_at is None,
    {
        AzureStore {
            inventory: Inventory::default(),
            secrets: Vec::new(),
            repositories: Vec::new(),
            tags: Vec::new(),
            manifests: Vec::new(),
            versions: Vec::new(),
            problems: Vec::new(),
            refreshing: false,
            progress: None,
            read_at: None,
        }
    }
}

/// Where the vault of that name stands in the inventory, or how many there
/// are where none has it.
pub open spec fn vault_at(vaults: Seq<Vault>, name: Seq<char>) -> int
    decreases vaults.len(),
{
    if vaults.len() == 0 || vaults[0].name@ == name {
        0
    } else {
        1 + vault_at(vaults.skip(1), name)
    }
}

pub proof fn lemma_vault_at(vaults: Seq<Vault>, name: Seq<char>, i: int)
    requires
        0 <= i <= vaults.len(),
        forall|k: int| 0 <= k < i ==> (#[trigger] vaults[k]).name@ != name,
        i < vaults.len() ==> vaults[i].name@ == name,
    ensures
        vault_at(vaults, name) == i,
    decreases i,
{
    if i > 0 {
        assert forall|k: int| 0 <= k < i - 1 implies (#[trigger] vaults.skip(1)[k]).name@
            != name by {
            assert(vaults.skip(1)[k] == vaults[k + 1]);
        }
        lemma_vault_at(vaults.skip(1), name, i - 1);
    }
}

/// Where the registry of that name stands in the inventory, or how many there
/// are where none has it.
pub open spec fn registry_at(registries: Seq<Registry>, name: Seq<char>) -> int
    decreases registries.len(),
{
    if registries.len() == 0 || registries[0].name@ == name {
        0
    } else {
        1 + registry_at(registries.skip(1), name)
    }
}

pub proof fn lemma_registry_at(registries: Seq<Registry>, name: Seq<char>, i: int)
    requires
        0 <= i <= registries.len(),
        forall|k: int| 0 <= k < i ==> (#[trigger] registries[k]).name@ != name,
        i < registries.len() ==> registries[i].name@ == name,
    ensures
        registry_at(registries, name) == i,
    decreases i,
{
    if i > 0 {
        assert forall|k: int| 0 <= k < i - 1 implies (#[trigger] registries.skip(1)[k]).name@
            != name by {
            assert(registries.skip(1)[k] == registries[k + 1]);
        }
        lemma_registry_at(registries.skip(1), name, i - 1);
    }
}

/// Where the tags of that repository stand among those read, or how many have
/// been read where they have not.
pub open spec fn tags_at(tags: Seq<TagsRead>, registry: Seq<char>, repo: Seq<char>) -> int
    decreases tags.len(),
{
    if tags.len() == 0 || (tags[0].registry@ == registry && tags[0].repo@ == repo) {
        0
    } else {
        1 + tags_at(tags.skip(1), registry, repo)
    }
}

pub proof fn lemma_tags_at(tags: Seq<TagsRead>, registry: Seq<char>, repo: Seq<char>, i: int)
    requires
        0 <= i <= tags.len(),
        forall|k: int|
            0 <= k < i ==> !((#[trigger] tags[k]).registry@ == registry && tags[k].repo@ == repo),
        i < tags.len() ==> tags[i].registry@ == registry && tags[i].repo@ == repo,
    ensures
        tags_at(tags, registry, repo) == i,
    decreases i,
{
    if i > 0 {
        assert forall|k: int| 0 <= k < i - 1 implies !((#[trigger] tags.skip(1)[k]).registry@
            == registry && tags.skip(1)[k].repo@ == repo) by {
            assert(tags.skip(1)[k] == tags[k + 1]);
        }
        lemma_tags_at(tags.skip(1), registry, repo, i - 1);
    }
}

impl AzureStore {
    /// The vault of that name, where the inventory has it.
    pub open spec fn vault_named(self, name: Seq<char>) -> Option<Vault> {
        let at = vault_at(self.inventory.vaults@, name);
        if at < self.inventory.vaults@.len() {
            Some(self.inventory.vaults@[at])
        } else {
            None
        }
    }

    /// The registry of that name, where the inventory has it.
    pub open spec fn registry_named(self, name: Seq<char>) -> Option<Registry> {
        let at = registry_at(self.inventory.registries@, name);
        if at < self.inventory.registries@.len() {
            Some(self.inventory.registries@[at])
        } else {
            None
        }
    }

    /// What the tags of a repository answered, where they have.
    pub open spec fn tags_read(self, registry: Seq<char>, repo: Seq<char>) -> Option<
        Result<Vec<Tag>, String>,
    > {
        let at = tags_at(self.tags@, registry, repo);
        if at < self.tags@.len() {
            Some(self.tags@[at].result)
        } else {
            None
        }
    }

    /// Whether a digest's manifest has answered.
    pub open spec fn manifest_read(
        self,
        registry: Seq<char>,
        repo: Seq<char>,
        digest: Seq<char>,
    ) -> bool {
        exists|i: int|
            0 <= i < self.manifests@.len() && (#[trigger] self.manifests@[i]).registry@ == registry
                && self.manifests@[i].repo@ == repo && self.manifests@[i].digest@ == digest
    }

    /// Whether a secret's versions have answered.
    pub open spec fn versions_read(self, vault: Seq<char>, name: Seq<char>) -> bool {
        exists|i: int|
            0 <= i < self.versions@.len() && (#[trigger] self.versions@[i]).vault@ == vault
                && self.versions@[i].name@ == name
    }

    #[must_use]
    pub fn vault(&self, name: &str) -> (r: Option<&Vault>)
        ensures
            r == match self.vault_named(name@) {
                Some(vault) => Some(&vault),
                None => None::<&Vault>,
            },
    {
        let vaults = &self.inventory.vaults;
        let mut i: usize = 0;
        while i < vaults.len()
            invariant
                i <= vaults@.len(),
                vaults@ == self.inventory.vaults@,
                forall|k: int| 0 <= k < i ==> (#[trigger] vaults@[k]).name@ != name@,
            decreases vaults@.len() - i,
        {
            if equal(vaults[i].name.as_str(), name) {
                proof {
                    lemma_vault_at(vaults@, name@, i as int);
                }
                return Some(&vaults[i]);
            }
            i = i + 1;
        }
        proof {
            lemma_vault_at(vaults@, name@, i as int);
        }
        None
    }

    #[must_use]
    pub fn registry(&self, name: &str) -> (r: Option<&Registry>)
        ensures
            r == match self.registry_named(name@) {
                Some(registry) => Some(&registry),
                None => None::<&Registry>,
            },
    {
        let registries = &self.inventory.registries;
        let mut i: usize = 0;
        while i < registries.len()
            invariant
                i <= registries@.len(),
                registries@ == self.inventory.registries@,
                forall|k: int| 0 <= k < i ==> (#[trigger] registries@[k]).name@ != name@,
            decreases registries@.len() - i,
        {
            if equal(registries[i].name.as_str(), name) {
                proof {
                    lemma_registry_at(registries@, name@, i as int);
                }
                return Some(&registries[i]);
            }
            i = i + 1;
        }
        proof {
            lemma_registry_at(registries@, name@, i as int);
        }
        None
    }

    fn tags_position(&self, registry: &str, repo: &str) -> (r: usize)
        ensures
            r == tags_at(self.tags@, registry@, repo@),
            r <= self.tags@.len(),
    {
        let mut i: usize = 0;
        while i < self.tags.len() && !(equal(self.tags[i].registry.as_str(), registry) && equal(
            self.tags[i].repo.as_str(),
            repo,
        ))
            invariant
                i <= self.tags@.len(),
                forall|k: int|
                    0 <= k < i ==> !((#[trigger] self.tags@[k]).registry@ == registry@
                        && self.tags@[k].repo@ == repo@),
            decreases self.tags@.len() - i,
        {
            i = i + 1;
        }
        proof {
            lemma_tags_at(self.tags@, registry@, repo@, i as int);
        }
        i
    }

    /// What the tags of a repository answered, where they have.
    #[must_use]
    pub fn tags_of(&self, registry: &str, repo: &str) -> (r: Option<&Result<Vec<Tag>, String>>)
        ensures
            r == match self.tags_read(registry@, repo@) {
                Some(result) => Some(&result),
                None => None::<&Result<Vec<Tag>, String>>,
            },
    {
        let at: usize = self.tags_position(registry, repo);
        if at < self.tags.len() {
            Some(&self.tags[at].result)
        } else {
            None
        }
    }

    #[must_use]
    pub fn has_manifest(&self, registry: &str, repo: &str, digest: &str) -> (r: bool)
        ensures
            r == self.manifest_read(registry@, repo@, digest@),
    {
        let mut i: usize = 0;
        while i < self.manifests.len()
            invariant
                i <= self.manifests@.len(),
                forall|k: int|
                    0 <= k < i ==> !((#[trigger] self.manifests@[k]).registry@ == registry@
                        && self.manifests@[k].repo@ == repo@ && self.manifests@[k].digest@
                        == digest@),
            decreases self.manifests@.len() - i,
        {
            let held = &self.manifests[i];
            if equal(held.registry.as_str(), registry) && equal(held.repo.as_str(), repo) && equal(
                held.digest.as_str(),
                digest,
            ) {
                return true;
            }
            i = i + 1;
        }
        false
    }

    #[must_use]
    pub fn has_versions(&self, vault: &str, name: &str) -> (r: bool)
        ensures
            r == self.versions_read(vault@, name@),
    {
        let mut i: usize = 0;
        while i < self.versions.len()
            invariant
                i <= self.versions@.len(),
                forall|k: int|
                    0 <= k < i ==> !((#[trigger] self.versions@[k]).vault@ == vault@
                        && self.versions@[k].name@ == name@),
            decreases self.versions@.len() - i,
        {
            let held = &self.versions[i];
            if equal(held.vault.as_str(), vault) && equal(held.name.as_str(), name) {
                return true;
            }
            i = i + 1;
        }
        false
    }

    /// The first thing that is wrong, for the status bar.
    #[must_use]
    pub fn first_problem(&self) -> (r: Option<&Problem>)
        ensures
            r == if self.problems@.len() > 0 {
                Some(&self.problems@[0])
            } else {
                None::<&Problem>
            },
    {
        if self.problems.len() > 0 {
            Some(&self.problems[0])
        } else {
            None
        }
    }
}

// ---------------------------------------------------------------------------
// News from the Azure worker
// ---------------------------------------------------------------------------

/// The rows of every vault but one.
pub open spec fn not_of_vault(rows: Seq<SecretRow>, vault: Seq<char>) -> Seq<SecretRow> {
    rows.filter(|row: SecretRow| row.vault@ != vault)
}

fn drop_vault(rows: Vec<SecretRow>, vault: &str) -> (r: Vec<SecretRow>)
    ensures
        r@ == not_of_vault(rows@, vault@),
{
    let ghost keep = |row: SecretRow| row.vault@ != vault@;
    let ghost all = rows@;
    let mut out: Vec<SecretRow> = Vec::new();
    proof {
        reveal(Seq::filter);
        assert(out@ =~= all.take(0).filter(keep));
    }
    for row in iter: rows.into_iter()
        invariant
            iter.seq() == all,
            keep == (|row: SecretRow| row.vault@ != vault@),
            out@ == all.take(iter.index() as int).filter(keep),
    {
        proof {
            reveal(Seq::filter);
            assert(all.take(iter.index() + 1).drop_last() =~= all.take(iter.index() as int));
            assert(all.take(iter.index() + 1).last() == row);
        }
        if !equal(row.vault.as_str(), vault) {
            out.push(row);
        }
    }
    proof {
        assert(all.take(all.len() as int) =~= all);
    }
    out
}

/// The rows of every registry but one.
pub open spec fn not_of_registry(rows: Seq<Repository>, registry: Seq<char>) -> Seq<Repository> {
    rows.filter(|row: Repository| row.registry@ != registry)
}

fn drop_registry(rows: Vec<Repository>, registry: &str) -> (r: Vec<Repository>)
    ensures
        r@ == not_of_registry(rows@, registry@),
{
    let ghost keep = |row: Repository| row.registry@ != registry@;
    let ghost all = rows@;
    let mut out: Vec<Repository> = Vec::new();
    proof {
        reveal(Seq::filter);
        assert(out@ =~= all.take(0).filter(keep));
    }
    for row in iter: rows.into_iter()
        invariant
            iter.seq() == all,
            keep == (|row: Repository| row.registry@ != registry@),
            out@ == all.take(iter.index() as int).filter(keep),
    {
        proof {
            reveal(Seq::filter);
            assert(all.take(iter.index() + 1).drop_last() =~= all.take(iter.index() as int));
            assert(all.take(iter.index() + 1).last() == row);
        }
        if !equal(row.registry.as_str(), registry) {
            out.push(row);
        }
    }
    proof {
        assert(all.take(all.len() as int) =~= all);
    }
    out
}

/// The problems of everything but one source.
pub open spec fn not_from(problems: Seq<Problem>, source: Seq<char>) -> Seq<Problem> {
    problems.filter(|problem: Problem| problem.source@ != source)
}

fn drop_source(problems: Vec<Problem>, source: &str) -> (r: Vec<Problem>)
    ensures
        r@ == not_from(problems@, source@),
{
    let ghost keep = |problem: Problem| problem.source@ != source@;
    let ghost all = problems@;
    let mut out: Vec<Problem> = Vec::new();
    proof {
        reveal(Seq::filter);
        assert(out@ =~= all.take(0).filter(keep));
    }
    for problem in iter: problems.into_iter()
        invariant
            iter.seq() == all,
            keep == (|problem: Problem| problem.source@ != source@),
            out@ == all.take(iter.index() as int).filter(keep),
    {
        proof {
            reveal(Seq::filter);
            assert(all.take(iter.index() + 1).drop_last() =~= all.take(iter.index() as int));
            assert(all.take(iter.index() + 1).last() == problem);
        }
        if !equal(problem.source.as_str(), source) {
            out.push(problem);
        }
    }
    proof {
        assert(all.take(all.len() as int) =~= all);
    }
    out
}

/// What is on file about problems once a source has been read, or has not.
pub open spec fn problems_after<T>(
    before: Seq<Problem>,
    source: String,
    result: Result<T, String>,
    after: Seq<Problem>,
) -> bool {
    match result {
        Ok(_) => after == not_from(before, source@),
        Err(message) => after == not_from(before, source@).push(Problem { source, message }),
    }
}

/// The same list with what one thing answered put in the place of what it
/// answered before.
pub open spec fn put_at<T>(list: Seq<T>, at: int, item: T) -> Seq<T> {
    if at < list.len() {
        list.update(at, item)
    } else {
        list.push(item)
    }
}

/// Where a repository stands among the rows, or how many there are where it
/// is not among them.
pub open spec fn repository_at(
    rows: Seq<Repository>,
    registry: Seq<char>,
    name: Seq<char>,
) -> int
    decreases rows.len(),
{
    if rows.len() == 0 || (rows[0].registry@ == registry && rows[0].name@ == name) {
        0
    } else {
        1 + repository_at(rows.skip(1), registry, name)
    }
}

pub proof fn lemma_repository_at(
    rows: Seq<Repository>,
    registry: Seq<char>,
    name: Seq<char>,
    i: int,
)
    requires
        0 <= i <= rows.len(),
        forall|k: int|
            0 <= k < i ==> !((#[trigger] rows[k]).registry@ == registry && rows[k].name@ == name),
        i < rows.len() ==> rows[i].registry@ == registry && rows[i].name@ == name,
    ensures
        repository_at(rows, registry, name) == i,
    decreases i,
{
    if i > 0 {
        assert forall|k: int| 0 <= k < i - 1 implies !((#[trigger] rows.skip(1)[k]).registry@
            == registry && rows.skip(1)[k].name@ == name) by {
            assert(rows.skip(1)[k] == rows[k + 1]);
        }
        lemma_repository_at(rows.skip(1), registry, name, i - 1);
    }
}

/// Where a manifest stands among those read.
pub open spec fn manifest_at(
    list: Seq<ManifestRead>,
    registry: Seq<char>,
    repo: Seq<char>,
    digest: Seq<char>,
) -> int
    decreases list.len(),
{
    if list.len() == 0 || (list[0].registry@ == registry && list[0].repo@ == repo
        && list[0].digest@ == digest) {
        0
    } else {
        1 + manifest_at(list.skip(1), registry, repo, digest)
    }
}

proof fn lemma_manifest_at(
    list: Seq<ManifestRead>,
    registry: Seq<char>,
    repo: Seq<char>,
    digest: Seq<char>,
    i: int,
)
    requires
        0 <= i <= list.len(),
        forall|k: int|
            0 <= k < i ==> !((#[trigger] list[k]).registry@ == registry && list[k].repo@ == repo
                && list[k].digest@ == digest),
        i < list.len() ==> list[i].registry@ == registry && list[i].repo@ == repo
            && list[i].digest@ == digest,
    ensures
        manifest_at(list, registry, repo, digest) == i,
    decreases i,
{
    if i > 0 {
        assert forall|k: int| 0 <= k < i - 1 implies !((#[trigger] list.skip(1)[k]).registry@
            == registry && list.skip(1)[k].repo@ == repo && list.skip(1)[k].digest@ == digest) by {
            assert(list.skip(1)[k] == list[k + 1]);
        }
        lemma_manifest_at(list.skip(1), registry, repo, digest, i - 1);
    }
}

/// Where a secret's versions stand among those read.
pub open spec fn versions_at(list: Seq<VersionsRead>, vault: Seq<char>, name: Seq<char>) -> int
    decreases list.len(),
{
    if list.len() == 0 || (list[0].vault@ == vault && list[0].name@ == name) {
        0
    } else {
        1 + versions_at(list.skip(1), vault, name)
    }
}

proof fn lemma_versions_at(list: Seq<VersionsRead>, vault: Seq<char>, name: Seq<char>, i: int)
    requires
        0 <= i <= list.len(),
        forall|k: int|
            0 <= k < i ==> !((#[trigger] list[k]).vault@ == vault && list[k].name@ == name),
        i < list.len() ==> list[i].vault@ == vault && list[i].name@ == name,
    ensures
        versions_at(list, vault, name) == i,
    decreases i,
{
    if i > 0 {
        assert forall|k: int| 0 <= k < i - 1 implies !((#[trigger] list.skip(1)[k]).vault@
            == vault && list.skip(1)[k].name@ == name) by {
            assert(list.skip(1)[k] == list[k + 1]);
        }
        lemma_versions_at(list.skip(1), vault, name, i - 1);
    }
}

impl AzureStore {
    /// The same rows.
    pub open spec fn same_rows(self, other: Self) -> bool {
        &&& self.secrets == other.secrets
        &&& self.repositories == other.repositories
    }

    /// The same details.
    pub open spec fn same_details(self, other: Self) -> bool {
        &&& self.tags == other.tags
        &&& self.manifests == other.manifests
        &&& self.versions == other.versions
    }

    /// The same progress.
    pub open spec fn same_progress(self, other: Self) -> bool {
        &&& self.refreshing == other.refreshing
        &&& self.progress == other.progress
        &&& self.read_at == other.read_at
    }

    /// What a piece of news makes of the store.
    pub open spec fn after(
        self,
        event: worker::Event,
        now: Timestamp,
        then: Self,
        applied: Applied,
    ) -> bool {
        match event {
            worker::Event::Inventory(result) => {
                &&& then.same_rows(self)
                &&& then.same_details(self)
                &&& then.same_progress(self)
                &&& match result {
                    Ok(inventory) => {
                        &&& then.inventory == inventory
                        &&& then.problems@ == not_from(self.problems@, ""@)
                        &&& applied is Secrets
                    },
                    Err(message) => {
                        &&& then.inventory == self.inventory
                        &&& then.problems@.len() == not_from(self.problems@, ""@).len() + 1
                        &&& then.problems@.drop_last() == not_from(self.problems@, ""@)
                        &&& then.problems@.last().source@ == ""@
                        &&& then.problems@.last().message == message
                        &&& applied is Status
                    },
                }
            },
            worker::Event::Secrets { vault, result } => {
                &&& then.inventory == self.inventory
                &&& then.repositories == self.repositories
                &&& then.same_details(self)
                &&& then.same_progress(self)
                &&& problems_after(self.problems@, vault, result, then.problems@)
                &&& match result {
                    Ok(rows) => {
                        &&& then.secrets@ == not_of_vault(self.secrets@, vault@) + rows@
                        &&& applied is Secrets
                    },
                    Err(_) => then.secrets == self.secrets && applied is Status,
                }
            },
            worker::Event::Repositories { registry, result } => {
                &&& then.inventory == self.inventory
                &&& then.secrets == self.secrets
                &&& then.same_details(self)
                &&& then.same_progress(self)
                &&& problems_after(self.problems@, registry, result, then.problems@)
                &&& match result {
                    Ok(rows) => {
                        &&& then.repositories@ == not_of_registry(self.repositories@, registry@)
                            + rows@
                        &&& applied is Repositories
                    },
                    Err(_) => then.repositories == self.repositories && applied is Status,
                }
            },
            worker::Event::Repository { registry, repository } => {
                &&& then.inventory == self.inventory
                &&& then.secrets == self.secrets
                &&& then.same_details(self)
                &&& then.same_progress(self)
                &&& then.problems == self.problems
                &&& then.repositories@ == put_at(
                    self.repositories@,
                    repository_at(self.repositories@, registry@, repository.name@),
                    repository,
                )
                &&& applied is Repositories
            },
            worker::Event::Tags { registry, repo, result } => {
                &&& then.inventory == self.inventory
                &&& then.same_rows(self)
                &&& then.same_progress(self)
                &&& then.problems == self.problems
                &&& then.manifests == self.manifests
                &&& then.versions == self.versions
                &&& then.tags@ == put_at(
                    self.tags@,
                    tags_at(self.tags@, registry@, repo@),
                    TagsRead { registry, repo, result },
                )
                &&& applied is Detail
            },
            worker::Event::Manifest { registry, repo, digest, result } => {
                &&& then.inventory == self.inventory
                &&& then.same_rows(self)
                &&& then.same_progress(self)
                &&& then.problems == self.problems
                &&& then.tags == self.tags
                &&& then.versions == self.versions
                &&& then.manifests@ == put_at(
                    self.manifests@,
                    manifest_at(self.manifests@, registry@, repo@, digest@),
                    ManifestRead { registry, repo, digest, result },
                )
                &&& applied is Detail
            },
            worker::Event::Versions { vault, name, result } => {
                &&& then.inventory == self.inventory
                &&& then.same_rows(self)
                &&& then.same_progress(self)
                &&& then.problems == self.problems
                &&& then.tags == self.tags
                &&& then.manifests == self.manifests
                &&& then.versions@ == put_at(
                    self.versions@,
                    versions_at(self.versions@, vault@, name@),
                    VersionsRead { vault, name, result },
                )
                &&& applied is Detail
            },
            worker::Event::Value { vault, name, result } => {
                &&& then == self
                &&& applied == (Applied::Value { vault, name, result })
            },
            worker::Event::Progress(text) => {
                &&& then == (AzureStore { refreshing: true, progress: Some(text), ..self })
                &&& applied is Status
            },
            worker::Event::Idle => {
                &&& then == (AzureStore {
                    refreshing: false,
                    progress: None,
                    read_at: Some(now),
                    ..self
                })
                &&& applied is Status
            },
        }
    }

    fn take_secrets(&mut self) -> (r: Vec<SecretRow>)
        ensures
            r == old(self).secrets,
            final(self).secrets@.len() == 0,
            *final(self) == (AzureStore { secrets: final(self).secrets, ..*old(self) }),
    {
        let mut held: Vec<SecretRow> = Vec::new();
        std::mem::swap(&mut held, &mut self.secrets);
        held
    }

    fn take_repositories(&mut self) -> (r: Vec<Repository>)
        ensures
            r == old(self).repositories,
            final(self).repositories@.len() == 0,
            *final(self) == (AzureStore { repositories: final(self).repositories, ..*old(self) }),
    {
        let mut held: Vec<Repository> = Vec::new();
        std::mem::swap(&mut held, &mut self.repositories);
        held
    }

    /// Takes what one source said before off the list of problems.
    fn forget_problem(&mut self, source: &str)
        ensures
            final(self).problems@ == not_from(old(self).problems@, source@),
            *final(self) == (AzureStore { problems: final(self).problems, ..*old(self) }),
    {
        let mut held: Vec<Problem> = Vec::new();
        std::mem::swap(&mut held, &mut self.problems);
        self.problems = drop_source(held, source);
    }

    /// Folds a piece of news into what is on file, and says what it touched.
    pub fn apply(&mut self, event: worker::Event, now: Timestamp) -> (r: Applied)
        ensures
            old(self).after(event, now, *final(self), r),
    {
        match event {
            worker::Event::Inventory(result) => {
                self.forget_problem("");
                match result {
                    Ok(inventory) => {
                        self.inventory = inventory;
                        Applied::Secrets
                    },
                    Err(message) => {
                        let ghost before = self.problems@;
                        self.problems.push(Problem { source: "".to_owned(), message });
                        proof {
                            assert(self.problems@.drop_last() =~= before);
                        }
                        Applied::Status
                    },
                }
            },
            worker::Event::Secrets { vault, result } => {
                self.forget_problem(vault.as_str());
                match result {
                    Ok(mut rows) => {
                        let held = self.take_secrets();
                        let mut kept = drop_vault(held, vault.as_str());
                        kept.append(&mut rows);
                        self.secrets = kept;
                        Applied::Secrets
                    },
                    Err(message) => {
                        self.problems.push(Problem { source: vault, message });
                        Applied::Status
                    },
                }
            },
            worker::Event::Repositories { registry, result } => {
                self.forget_problem(registry.as_str());
                match result {
                    Ok(mut rows) => {
                        let held = self.take_repositories();
                        let mut kept = drop_registry(held, registry.as_str());
                        kept.append(&mut rows);
                        self.repositories = kept;
                        Applied::Repositories
                    },
                    Err(message) => {
                        self.problems.push(Problem { source: registry, message });
                        Applied::Status
                    },
                }
            },
            worker::Event::Repository { registry, repository } => {
                let mut at: usize = 0;
                while at < self.repositories.len() && !(equal(
                    self.repositories[at].registry.as_str(),
                    registry.as_str(),
                ) && equal(self.repositories[at].name.as_str(), repository.name.as_str()))
                    invariant
                        at <= self.repositories@.len(),
                        *self == *old(self),
                        forall|k: int|
                            0 <= k < at ==> !((#[trigger] self.repositories@[k]).registry@
                                == registry@ && self.repositories@[k].name@ == repository.name@),
                    decreases self.repositories@.len() - at,
                {
                    at = at + 1;
                }
                proof {
                    lemma_repository_at(
                        self.repositories@,
                        registry@,
                        repository.name@,
                        at as int,
                    );
                }
                if at < self.repositories.len() {
                    self.repositories[at] = repository;
                } else {
                    self.repositories.push(repository);
                }
                Applied::Repositories
            },
            worker::Event::Tags { registry, repo, result } => {
                let at: usize = self.tags_position(registry.as_str(), repo.as_str());
                let read = TagsRead { registry, repo, result };
                if at < self.tags.len() {
                    self.tags[at] = read;
                } else {
                    self.tags.push(read);
                }
                Applied::Detail
            },
            worker::Event::Manifest { registry, repo, digest, result } => {
                let mut at: usize = 0;
                while at < self.manifests.len() && !(equal(
                    self.manifests[at].registry.as_str(),
                    registry.as_str(),
                ) && equal(self.manifests[at].repo.as_str(), repo.as_str()) && equal(
                    self.manifests[at].digest.as_str(),
                    digest.as_str(),
                ))
                    invariant
                        at <= self.manifests@.len(),
                        *self == *old(self),
                        forall|k: int|
                            0 <= k < at ==> !((#[trigger] self.manifests@[k]).registry@
                                == registry@ && self.manifests@[k].repo@ == repo@
                                && self.manifests@[k].digest@ == digest@),
                    decreases self.manifests@.len() - at,
                {
                    at = at + 1;
                }
                proof {
                    lemma_manifest_at(self.manifests@, registry@, repo@, digest@, at as int);
                }
                let read = ManifestRead { registry, repo, digest, result };
                if at < self.manifests.len() {
                    self.manifests[at] = read;
                } else {
                    self.manifests.push(read);
                }
                Applied::Detail
            },
            worker::Event::Versions { vault, name, result } => {
                let mut at: usize = 0;
                while at < self.versions.len() && !(equal(
                    self.versions[at].vault.as_str(),
                    vault.as_str(),
                ) && equal(self.versions[at].name.as_str(), name.as_str()))
                    invariant
                        at <= self.versions@.len(),
                        *self == *old(self),
                        forall|k: int|
                            0 <= k < at ==> !((#[trigger] self.versions@[k]).vault@ == vault@
                                && self.versions@[k].name@ == name@),
                    decreases self.versions@.len() - at,
                {
                    at = at + 1;
                }
                proof {
                    lemma_versions_at(self.versions@, vault@, name@, at as int);
                }
                let read = VersionsRead { vault, name, result };
                if at < self.versions.len() {
                    self.versions[at] = read;
                } else {
                    self.versions.push(read);
                }
                Applied::Detail
            },
            worker::Event::Value { vault, name, result } => Applied::Value { vault, name, result },
            worker::Event::Progress(text) => {
                self.refreshing = true;
                self.progress = Some(text);
                Applied::Status
            },
            worker::Event::Idle => {
                self.refreshing = false;
                self.progress = None;
                self.read_at = Some(now);
                Applied::Status
            },
        }
    }
}

/// A failed read keeps the rows that were read before it.
pub proof fn law_a_failed_read_keeps_the_rows(
    store: AzureStore,
    event: worker::Event,
    now: Timestamp,
    then: AzureStore,
    applied: Applied,
)
    requires
        store.after(event, now, then, applied),
        event matches worker::Event::Secrets { result: Err(_), .. } || event
            matches worker::Event::Repositories { result: Err(_), .. } || event
            matches worker::Event::Inventory(Err(_)),
    ensures
        then.secrets == store.secrets,
        then.repositories == store.repositories,
        then.inventory == store.inventory,
        then.problems@.len() > 0,
{
}

/// A value that was read is handed on and never kept.
pub proof fn law_a_value_is_never_kept(
    store: AzureStore,
    event: worker::Event,
    now: Timestamp,
    then: AzureStore,
    applied: Applied,
)
    requires
        store.after(event, now, then, applied),
        event is Value,
    ensures
        then == store,
{
}

// ---------------------------------------------------------------------------
// The clusters
// ---------------------------------------------------------------------------

/// One kind's rows, as last read, and how the reading went.
pub struct Listing<T> {
    pub rows: Vec<T>,
    /// What the last read said, when it failed.
    pub error: Option<String>,
    pub read_at: Option<Timestamp>,
    /// How many reads have landed.
    pub reads: usize,
}

impl<T> Listing<T> {
    pub open spec fn is_unread(self) -> bool {
        &&& self.rows@.len() == 0
        &&& self.error is None
        &&& self.read_at is None
        &&& self.reads == 0
    }

    #[must_use]
    pub fn unread() -> (r: Self)
        ensures
            r.is_unread(),
    {
        Listing { rows: Vec::new(), error: None, read_at: None, reads: 0 }
    }

    /// What a read makes of the rows.
    pub open spec fn after(self, result: Result<Vec<T>, String>, now: Timestamp, then: Self) -> bool {
        match result {
            Ok(rows) => {
                &&& then.rows == rows
                &&& then.error is None
                &&& then.read_at == Some(now)
                &&& then.reads == if self.reads < usize::MAX {
                    self.reads + 1
                } else {
                    usize::MAX as int
                }
            },
            Err(message) => then == (Listing { error: Some(message), ..self }),
        }
    }

    /// Puts a read on file. A failed one keeps the rows. Says whether it went
    /// through.
    pub fn put(&mut self, result: Result<Vec<T>, String>, now: Timestamp) -> (r: bool)
        ensures
            old(self).after(result, now, *final(self)),
            r == (result is Ok),
    {
        match result {
            Ok(rows) => {
                self.rows = rows;
                self.error = None;
                self.read_at = Some(now);
                self.reads = self.reads.saturating_add(1);
                true
            },
            Err(message) => {
                self.error = Some(message);
                false
            },
        }
    }
}

/// What the status bar asks of one kind, whatever its rows are.
pub struct Summary<'a> {
    pub count: usize,
    pub error: Option<&'a String>,
    pub read_at: Option<Timestamp>,
    pub reads: usize,
}

/// One namespace of one cluster, or all of its namespaces.
pub struct ScopeData {
    pub pods: Listing<Pod>,
    pub events: Listing<K8sEvent>,
    pub configmaps: Listing<ConfigMap>,
    pub secrets: Listing<SecretMeta>,
    /// Whether a read is in flight.
    pub reading: bool,
}

/// The summary of one list.
pub open spec fn summed<T>(listing: Listing<T>) -> (int, Option<String>, Option<Timestamp>, int) {
    (listing.rows@.len() as int, listing.error, listing.read_at, listing.reads as int)
}

/// How many of the pods are in trouble.
pub open spec fn troubled(rows: Seq<Pod>) -> int
    decreases rows.len(),
{
    if rows.len() == 0 {
        0
    } else {
        troubled(rows.drop_last()) + if rows.last().in_trouble() {
            1int
        } else {
            0
        }
    }
}

impl Default for ScopeData {
    fn default() -> (r: Self)
        ensures
            r.is_unread(),
    {
        ScopeData {
            pods: Listing::unread(),
            events: Listing::unread(),
            configmaps: Listing::unread(),
            secrets: Listing::unread(),
            reading: false,
        }
    }
}

impl ScopeData {
    pub open spec fn is_unread(self) -> bool {
        &&& self.pods.is_unread()
        &&& self.events.is_unread()
        &&& self.configmaps.is_unread()
        &&& self.secrets.is_unread()
        &&& !self.reading
    }

    /// One kind's count, last error, last reading and number of readings.
    pub open spec fn summary(self, kind: Kind) -> (int, Option<String>, Option<Timestamp>, int) {
        match kind {
            Kind::Pods => summed(self.pods),
            Kind::Events => summed(self.events),
            Kind::ConfigMaps => summed(self.configmaps),
            Kind::Secrets => summed(self.secrets),
        }
    }

    #[must_use]
    pub fn listing(&self, kind: Kind) -> (r: Summary<'_>)
        ensures
            r.count == self.summary(kind).0,
            r.error == match self.summary(kind).1 {
                Some(error) => Some(&error),
                None => None::<&String>,
            },
            r.read_at == self.summary(kind).2,
            r.reads == self.summary(kind).3,
    {
        match kind {
            Kind::Pods => Summary {
                count: self.pods.rows.len(),
                error: self.pods.error.as_ref(),
                read_at: self.pods.read_at,
                reads: self.pods.reads,
            },
            Kind::Events => Summary {
                count: self.events.rows.len(),
                error: self.events.error.as_ref(),
                read_at: self.events.read_at,
                reads: self.events.reads,
            },
            Kind::ConfigMaps => Summary {
                count: self.configmaps.rows.len(),
                error: self.configmaps.error.as_ref(),
                read_at: self.configmaps.read_at,
                reads: self.configmaps.reads,
            },
            Kind::Secrets => Summary {
                count: self.secrets.rows.len(),
                error: self.secrets.error.as_ref(),
                read_at: self.secrets.read_at,
                reads: self.secrets.reads,
            },
        }
    }

    /// How many pods are in trouble, for the tab's badge.
    #[must_use]
    pub fn unhealthy(&self) -> (r: usize)
        ensures
            r == troubled(self.pods.rows@),
    {
        let rows = &self.pods.rows;
        let mut count: usize = 0;
        let mut i: usize = 0;
        while i < rows.len()
            invariant
                i <= rows@.len(),
                count <= i,
                count == troubled(rows@.take(i as int)),
            decreases rows@.len() - i,
        {
            proof {
                assert(rows@.take(i + 1).drop_last() =~= rows@.take(i as int));
            }
            if rows[i].is_unhealthy() {
                count = count + 1;
            }
            i = i + 1;
        }
        proof {
            assert(rows@.take(rows@.len() as int) =~= rows@);
        }
        count
    }
}

/// What a piece of news from a cluster's worker touched.
#[derive(Clone, Copy, Debug, PartialEq, Eq, Structural)]
pub enum KubeApplied {
    Nothing,
    Status,
    /// One kind's rows were replaced.
    Rows(usize, Kind),
    /// One kind would not be read.
    Failed(usize, Kind),
}

/// Everything on file.
pub struct Store {
    pub azure: AzureStore,
    /// One per scope tab, in the tabs' order.
    pub scopes: Vec<ScopeData>,
}

/// What one kind's read says of itself.
pub open spec fn landed(scope: usize, kind: Kind, ok: bool) -> KubeApplied {
    if ok {
        KubeApplied::Rows(scope, kind)
    } else {
        KubeApplied::Failed(scope, kind)
    }
}

impl ScopeData {
    /// What a piece of news about this scope makes of it.
    pub open spec fn after(
        self,
        event: kube::Event,
        now: Timestamp,
        then: Self,
        applied: KubeApplied,
    ) -> bool {
        match event {
            kube::Event::Pods { scope, pods } => {
                &&& self.pods.after(pods, now, then.pods)
                &&& then == (ScopeData { pods: then.pods, reading: false, ..self })
                &&& applied == landed(scope, Kind::Pods, pods is Ok)
            },
            kube::Event::Events { scope, events } => {
                &&& self.events.after(events, now, then.events)
                &&& then == (ScopeData { events: then.events, reading: false, ..self })
                &&& applied == landed(scope, Kind::Events, events is Ok)
            },
            kube::Event::ConfigMaps { scope, configmaps } => {
                &&& self.configmaps.after(configmaps, now, then.configmaps)
                &&& then == (ScopeData { configmaps: then.configmaps, reading: false, ..self })
                &&& applied == landed(scope, Kind::ConfigMaps, configmaps is Ok)
            },
            kube::Event::Secrets { scope, secrets } => {
                &&& self.secrets.after(secrets, now, then.secrets)
                &&& then == (ScopeData { secrets: then.secrets, reading: false, ..self })
                &&& applied == landed(scope, Kind::Secrets, secrets is Ok)
            },
            kube::Event::Reading { .. } => {
                &&& then == (ScopeData { reading: true, ..self })
                &&& applied == KubeApplied::Status
            },
            _ => then == self && applied == KubeApplied::Nothing,
        }
    }

    fn apply(&mut self, event: kube::Event, now: Timestamp) -> (r: KubeApplied)
        ensures
            old(self).after(event, now, *final(self), r),
    {
        match event {
            kube::Event::Pods { scope, pods } => {
                self.reading = false;
                if self.pods.put(pods, now) {
                    KubeApplied::Rows(scope, Kind::Pods)
                } else {
                    KubeApplied::Failed(scope, Kind::Pods)
                }
            },
            kube::Event::Events { scope, events } => {
                self.reading = false;
                if self.events.put(events, now) {
                    KubeApplied::Rows(scope, Kind::Events)
                } else {
                    KubeApplied::Failed(scope, Kind::Events)
                }
            },
            kube::Event::ConfigMaps { scope, configmaps } => {
                self.reading = false;
                if self.configmaps.put(configmaps, now) {
                    KubeApplied::Rows(scope, Kind::ConfigMaps)
                } else {
                    KubeApplied::Failed(scope, Kind::ConfigMaps)
                }
            },
            kube::Event::Secrets { scope, secrets } => {
                self.reading = false;
                if self.secrets.put(secrets, now) {
                    KubeApplied::Rows(scope, Kind::Secrets)
                } else {
                    KubeApplied::Failed(scope, Kind::Secrets)
                }
            },
            kube::Event::Reading { .. } => {
                self.reading = true;
                KubeApplied::Status
            },
            _ => KubeApplied::Nothing,
        }
    }
}

/// Which scope a piece of news is about.
pub open spec fn scope_of(event: kube::Event) -> usize {
    match event {
        kube::Event::LogLines { target, .. } => target.scope,
        kube::Event::Text { scope, .. } => scope,
        kube::Event::Deleted { scope, .. } => scope,
        kube::Event::Acted { scope, .. } => scope,
        kube::Event::Owner { scope, .. } => scope,
        kube::Event::SecretValue { scope, .. } => scope,
        kube::Event::Pods { scope, .. } => scope,
        kube::Event::Events { scope, .. } => scope,
        kube::Event::ConfigMaps { scope, .. } => scope,
        kube::Event::Secrets { scope, .. } => scope,
        kube::Event::Reading { scope } => scope,
    }
}

/// What a piece of news from a cluster's worker touches, where there are that
/// many scopes.
pub open spec fn kube_touched(event: kube::Event, scopes: nat) -> KubeApplied {
    if scope_of(event) >= scopes {
        KubeApplied::Nothing
    } else {
        match event {
            kube::Event::Pods { scope, pods } => landed(scope, Kind::Pods, pods is Ok),
            kube::Event::Events { scope, events } => landed(scope, Kind::Events, events is Ok),
            kube::Event::ConfigMaps { scope, configmaps } => landed(
                scope,
                Kind::ConfigMaps,
                configmaps is Ok,
            ),
            kube::Event::Secrets { scope, secrets } => landed(scope, Kind::Secrets, secrets is Ok),
            kube::Event::Reading { .. } => KubeApplied::Status,
            _ => KubeApplied::Nothing,
        }
    }
}

pub fn event_scope(event: &kube::Event) -> (r: usize)
    ensures
        r == scope_of(*event),
{
    match event {
        kube::Event::LogLines { target, .. } => target.scope,
        kube::Event::Text { scope, .. } => *scope,
        kube::Event::Deleted { scope, .. } => *scope,
        kube::Event::Acted { scope, .. } => *scope,
        kube::Event::Owner { scope, .. } => *scope,
        kube::Event::SecretValue { scope, .. } => *scope,
        kube::Event::Pods { scope, .. } => *scope,
        kube::Event::Events { scope, .. } => *scope,
        kube::Event::ConfigMaps { scope, .. } => *scope,
        kube::Event::Secrets { scope, .. } => *scope,
        kube::Event::Reading { scope } => *scope,
    }
}

impl Store {
    /// A store with nothing read yet, for that many scopes.
    #[must_use]
    pub fn new(scopes: usize) -> (r: Self)
        ensures
            r.scopes@.len() == scopes,
            forall|i: int| 0 <= i < scopes ==> (#[trigger] r.scopes@[i]).is_unread(),
            r.azure.secrets@.len() == 0,
            r.azure.repositories@.len() == 0,
            r.azure.problems@.len() == 0,
            !r.azure.refreshing,
            r.azure.read_at is None,
    {
        let mut store = Store { azure: AzureStore::default(), scopes: Vec::new() };
        store.resize(scopes);
        store
    }

    /// Exactly `scopes` slots: the ones held first, then ones with nothing
    /// read.
    pub fn resize(&mut self, scopes: usize)
        ensures
            final(self).azure == old(self).azure,
            final(self).scopes@.len() == scopes,
            forall|i: int|
                0 <= i < scopes ==> if i < old(self).scopes@.len() {
                    (#[trigger] final(self).scopes@[i]) == old(self).scopes@[i]
                } else {
                    final(self).scopes@[i].is_unread()
                },
    {
        let ghost was = self.scopes@;
        self.scopes.truncate(scopes);
        while self.scopes.len() < scopes
            invariant
                self.azure == old(self).azure,
                self.scopes@.len() <= scopes,
                was == old(self).scopes@,
                self.scopes@.len() >= was.len() || self.scopes@.len() == scopes,
                forall|i: int|
                    0 <= i < self.scopes@.len() ==> if i < was.len() {
                        (#[trigger] self.scopes@[i]) == was[i]
                    } else {
                        self.scopes@[i].is_unread()
                    },
            decreases scopes - self.scopes@.len(),
        {
            self.scopes.push(ScopeData::default());
        }
    }

    #[must_use]
    pub fn scope(&self, at: usize) -> (r: Option<&ScopeData>)
        ensures
            r == if at < self.scopes@.len() {
                Some(&self.scopes@[at as int])
            } else {
                None::<&ScopeData>
            },
    {
        if at < self.scopes.len() {
            Some(&self.scopes[at])
        } else {
            None
        }
    }

    /// Whether any scope is being read.
    pub open spec fn is_reading(self) -> bool {
        exists|i: int| 0 <= i < self.scopes@.len() && (#[trigger] self.scopes@[i]).reading
    }

    #[must_use]
    pub fn reading(&self) -> (r: bool)
        ensures
            r == self.is_reading(),
    {
        let mut i: usize = 0;
        while i < self.scopes.len()
            invariant
                i <= self.scopes@.len(),
                forall|k: int| 0 <= k < i ==> !(#[trigger] self.scopes@[k]).reading,
            decreases self.scopes@.len() - i,
        {
            if self.scopes[i].reading {
                return true;
            }
            i = i + 1;
        }
        false
    }

    /// What a piece of news from a cluster's worker makes of the store.
    pub open spec fn after(
        self,
        event: kube::Event,
        now: Timestamp,
        then: Self,
        applied: KubeApplied,
    ) -> bool {
        let at = scope_of(event) as int;
        if at >= self.scopes@.len() {
            then == self && applied == KubeApplied::Nothing
        } else {
            &&& then.azure == self.azure
            &&& then.scopes@.len() == self.scopes@.len()
            &&& forall|i: int|
                0 <= i < self.scopes@.len() && i != at ==> (#[trigger] then.scopes@[i])
                    == self.scopes@[i]
            &&& self.scopes@[at].after(event, now, then.scopes@[at], applied)
        }
    }

    /// Folds a piece of news into what is on file, and says what it touched.
    pub fn apply_kube(&mut self, event: kube::Event, now: Timestamp) -> (r: KubeApplied)
        ensures
            old(self).after(event, now, *final(self), r),
    {
        let at: usize = event_scope(&event);
        if at >= self.scopes.len() {
            return KubeApplied::Nothing;
        }
        self.scopes[at].apply(event, now)
    }
}

} // verus!
