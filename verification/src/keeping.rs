//! What is promised of what is kept on file: what a piece of news puts there,
//! what it takes off, and what it leaves alone.

use vstd::prelude::*;

use crate::app::secrets::{running_out, running_out_count};
use crate::azure::{Manifest, Repository, SecretRow, SecretVersion, Tag};
use crate::kube::{self, ConfigMap, K8sEvent, Pod, SecretMeta};
use crate::store::{
    lemma_registry_at, lemma_repository_at, lemma_tags_at, lemma_vault_at, manifest_at, not_from,
    repository_at, tags_at, troubled, versions_at, Applied, AzureStore, KubeApplied, ManifestRead,
    Problem, Store, TagsRead, VersionsRead,
};
use crate::timestamp::Timestamp;
use crate::worker;

verus! {

proof fn lemma_filtered<T>(list: Seq<T>, keep: spec_fn(T) -> bool, item: T)
    ensures
        list.filter(keep).contains(item) <==> list.contains(item) && keep(item),
{
    if list.filter(keep).contains(item) {
        list.lemma_filter_contains_rev(keep, item);
        let i = list.filter(keep).index_of(item);
        list.lemma_filter_pred(keep, i);
    }
    if list.contains(item) && keep(item) {
        let i = list.index_of(item);
        list.lemma_filter_contains(keep, i);
    }
}

proof fn lemma_joined<T>(a: Seq<T>, b: Seq<T>, item: T)
    ensures
        (a + b).contains(item) <==> a.contains(item) || b.contains(item),
{
    let both = a + b;
    if a.contains(item) {
        assert(both[a.index_of(item)] == item);
    }
    if b.contains(item) {
        assert(both[a.len() + b.index_of(item)] == item);
    }
    if both.contains(item) {
        let i = both.index_of(item);
        if i < a.len() {
            assert(a[i] == item);
        } else {
            assert(b[i - a.len()] == item);
        }
    }
}

/// A vault that is read again has its rows replaced by those that were read,
/// and what it would not say before is forgotten. Every other vault's rows stay,
/// and so does everything else.
pub proof fn law_a_vault_read_again_has_the_new_rows(
    store: AzureStore,
    vault: String,
    rows: Vec<SecretRow>,
    now: Timestamp,
    then: AzureStore,
    applied: Applied,
)
    requires
        store.after(worker::Event::Secrets { vault, result: Ok(rows) }, now, then, applied),
    ensures
        forall|row: SecretRow| #[trigger]
            then.secrets@.contains(row) <==> rows@.contains(row) || (store.secrets@.contains(row)
                && row.vault@ != vault@),
        then.secrets@.len() >= rows@.len(),
        forall|i: int|
            0 <= i < rows@.len() ==> then.secrets@[then.secrets@.len() - rows@.len() + i]
                == #[trigger] rows@[i],
        forall|k: int|
            0 <= k < then.problems@.len() ==> (#[trigger] then.problems@[k]).source@ != vault@,
        forall|k: int|
            0 <= k < store.problems@.len() && (#[trigger] store.problems@[k]).source@ != vault@
                ==> then.problems@.contains(store.problems@[k]),
        then.repositories == store.repositories,
        then.inventory == store.inventory,
        then.tags == store.tags,
        then.manifests == store.manifests,
        then.versions == store.versions,
        then.read_at == store.read_at,
        then.refreshing == store.refreshing,
        applied is Secrets,
{
    let keep = |row: SecretRow| row.vault@ != vault@;
    let left = store.secrets@.filter(keep);
    assert forall|row: SecretRow| #[trigger] then.secrets@.contains(row) <==> rows@.contains(row)
        || (store.secrets@.contains(row) && row.vault@ != vault@) by {
        lemma_joined(left, rows@, row);
        lemma_filtered(store.secrets@, keep, row);
    }
    assert(then.secrets@ == left + rows@);
    lemma_problems(store, vault@);
}

proof fn lemma_not_from(problems: Seq<Problem>, from: Seq<char>)
    ensures
        forall|k: int|
            0 <= k < not_from(problems, from).len() ==> (#[trigger] not_from(
                problems,
                from,
            )[k]).source@ != from,
        forall|k: int|
            0 <= k < problems.len() && (#[trigger] problems[k]).source@ != from ==> not_from(
                problems,
                from,
            ).contains(problems[k]),
    decreases problems.len(),
{
    reveal(Seq::filter);
    if problems.len() > 0 {
        let before = problems.drop_last();
        lemma_not_from(before, from);
        let left = not_from(problems, from);
        let first = not_from(before, from);
        let last = problems.last();
        assert(left == if last.source@ != from {
            first.push(last)
        } else {
            first
        });
        assert forall|k: int| 0 <= k < left.len() implies (#[trigger] left[k]).source@ != from by {
            if k < first.len() {
                assert(left[k] == first[k]);
            }
        }
        assert forall|k: int|
            0 <= k < problems.len() && (#[trigger] problems[k]).source@
                != from implies left.contains(problems[k]) by {
            if k < before.len() {
                assert(before[k] == problems[k]);
                let at = first.index_of(before[k]);
                assert(left[at] == first[at]);
            } else {
                assert(left[left.len() - 1] == last);
            }
        }
    }
}

proof fn lemma_problems(store: AzureStore, source: Seq<char>)
    ensures
        forall|k: int|
            0 <= k < not_from(store.problems@, source).len() ==> (#[trigger] not_from(
                store.problems@,
                source,
            )[k]).source@ != source,
        forall|k: int|
            0 <= k < store.problems@.len() && (#[trigger] store.problems@[k]).source@ != source
                ==> not_from(store.problems@, source).contains(store.problems@[k]),
{
    lemma_not_from(store.problems@, source);
}

/// So it is with a registry.
pub proof fn law_a_registry_read_again_has_the_new_rows(
    store: AzureStore,
    registry: String,
    rows: Vec<Repository>,
    now: Timestamp,
    then: AzureStore,
    applied: Applied,
)
    requires
        store.after(worker::Event::Repositories { registry, result: Ok(rows) }, now, then, applied),
    ensures
        forall|row: Repository| #[trigger]
            then.repositories@.contains(row) <==> rows@.contains(row) || (
            store.repositories@.contains(row) && row.registry@ != registry@),
        then.repositories@.len() >= rows@.len(),
        forall|i: int|
            0 <= i < rows@.len() ==> then.repositories@[then.repositories@.len() - rows@.len() + i]
                == #[trigger] rows@[i],
        forall|k: int|
            0 <= k < then.problems@.len() ==> (#[trigger] then.problems@[k]).source@ != registry@,
        forall|k: int|
            0 <= k < store.problems@.len() && (#[trigger] store.problems@[k]).source@ != registry@
                ==> then.problems@.contains(store.problems@[k]),
        then.secrets == store.secrets,
        then.inventory == store.inventory,
        then.tags == store.tags,
        then.manifests == store.manifests,
        then.versions == store.versions,
        then.read_at == store.read_at,
        applied is Repositories,
{
    let keep = |row: Repository| row.registry@ != registry@;
    let left = store.repositories@.filter(keep);
    assert forall|row: Repository| #[trigger]
        then.repositories@.contains(row) <==> rows@.contains(row) || (store.repositories@.contains(
            row,
        ) && row.registry@ != registry@) by {
        lemma_joined(left, rows@, row);
        lemma_filtered(store.repositories@, keep, row);
    }
    assert(then.repositories@ == left + rows@);
    lemma_problems(store, registry@);
}

/// What would not be read is among the problems, under its own name and in its
/// own words, once; the rows that were there stay.
pub proof fn law_what_would_not_be_read_is_a_problem(
    store: AzureStore,
    source: String,
    message: String,
    now: Timestamp,
    then: AzureStore,
    applied: Applied,
)
    requires
        store.after(worker::Event::Secrets { vault: source, result: Err(message) }, now, then, applied)
            || store.after(
            worker::Event::Repositories { registry: source, result: Err(message) },
            now,
            then,
            applied,
        ),
    ensures
        then.problems@.len() > 0,
        then.problems@.last().source == source,
        then.problems@.last().message == message,
        forall|k: int|
            0 <= k < then.problems@.len() - 1 ==> (#[trigger] then.problems@[k]).source@ != source@,
        forall|k: int|
            0 <= k < store.problems@.len() && (#[trigger] store.problems@[k]).source@ != source@
                ==> then.problems@.contains(store.problems@[k]),
        then.secrets == store.secrets,
        then.repositories == store.repositories,
        then.inventory == store.inventory,
        applied is Status,
{
    lemma_problems(store, source@);
    let left = not_from(store.problems@, source@);
    assert(then.problems@.drop_last() =~= left);
    assert forall|k: int|
        0 <= k < then.problems@.len() - 1 implies (#[trigger] then.problems@[k]).source@
        != source@ by {
        assert(left[k] == then.problems@[k]);
    }
    assert forall|k: int|
        0 <= k < store.problems@.len() && (#[trigger] store.problems@[k]).source@
            != source@ implies then.problems@.contains(store.problems@[k]) by {
        let at = left.index_of(store.problems@[k]);
        assert(then.problems@[at] == left[at]);
    }
}

/// A repository that is filled in takes the place of the row of its registry
/// and its name, and no other row changes.
pub proof fn law_a_repository_filled_in_takes_its_own_row(
    store: AzureStore,
    registry: String,
    repository: Repository,
    now: Timestamp,
    then: AzureStore,
    applied: Applied,
)
    requires
        store.after(worker::Event::Repository { registry, repository }, now, then, applied),
    ensures
        then.repositories@.contains(repository),
        forall|i: int|
            0 <= i < store.repositories@.len() && !((#[trigger] store.repositories@[i]).registry@
                == registry@ && store.repositories@[i].name@ == repository.name@)
                ==> then.repositories@[i] == store.repositories@[i],
        then.repositories@.len() <= store.repositories@.len() + 1,
        (exists|i: int|
            0 <= i < store.repositories@.len() && (#[trigger] store.repositories@[i]).registry@
                == registry@ && store.repositories@[i].name@ == repository.name@)
            ==> then.repositories@.len() == store.repositories@.len(),
        then.secrets == store.secrets,
        then.inventory == store.inventory,
        then.problems == store.problems,
{
    let rows = store.repositories@;
    let at = lemma_repository_place(rows, registry@, repository.name@);
    assert(then.repositories@[at] == repository);
}

proof fn lemma_repository_place(rows: Seq<Repository>, registry: Seq<char>, name: Seq<char>) -> (at:
    int)
    ensures
        at == repository_at(rows, registry, name),
        0 <= at <= rows.len(),
        at < rows.len() ==> rows[at].registry@ == registry && rows[at].name@ == name,
        at == rows.len() ==> forall|k: int|
            0 <= k < rows.len() ==> !((#[trigger] rows[k]).registry@ == registry && rows[k].name@
                == name),
{
    lemma_first_place(
        rows,
        |row: Repository| row.registry@ == registry && row.name@ == name,
    );
    let at = first_place(rows, |row: Repository| row.registry@ == registry && row.name@ == name);
    lemma_repository_at(rows, registry, name, at);
    at
}

/// Where the first that is so stands.
pub open spec fn first_place<T>(list: Seq<T>, test: spec_fn(T) -> bool) -> int
    decreases list.len(),
{
    if list.len() == 0 || test(list[0]) {
        0
    } else {
        1 + first_place(list.skip(1), test)
    }
}

proof fn lemma_first_place<T>(list: Seq<T>, test: spec_fn(T) -> bool)
    ensures
        0 <= first_place(list, test) <= list.len(),
        first_place(list, test) < list.len() ==> test(list[first_place(list, test)]),
        forall|k: int| 0 <= k < first_place(list, test) ==> !test(#[trigger] list[k]),
    decreases list.len(),
{
    if list.len() > 0 && !test(list[0]) {
        lemma_first_place(list.skip(1), test);
        assert forall|k: int| 0 <= k < first_place(list, test) implies !test(#[trigger] list[k]) by {
            if k > 0 {
                assert(list.skip(1)[k - 1] == list[k]);
            }
        }
    }
}

proof fn lemma_tags_place(tags: Seq<TagsRead>, registry: Seq<char>, repo: Seq<char>)
    ensures
        0 <= tags_at(tags, registry, repo) <= tags.len(),
        tags_at(tags, registry, repo) < tags.len() ==> tags[tags_at(
            tags,
            registry,
            repo,
        )].registry@ == registry && tags[tags_at(tags, registry, repo)].repo@ == repo,
        forall|k: int|
            0 <= k < tags_at(tags, registry, repo) ==> !((#[trigger] tags[k]).registry@ == registry
                && tags[k].repo@ == repo),
    decreases tags.len(),
{
    if tags.len() > 0 && !(tags[0].registry@ == registry && tags[0].repo@ == repo) {
        lemma_tags_place(tags.skip(1), registry, repo);
        assert forall|k: int| 0 <= k < tags_at(tags, registry, repo) implies !((
        #[trigger] tags[k]).registry@ == registry && tags[k].repo@ == repo) by {
            if k > 0 {
                assert(tags.skip(1)[k - 1] == tags[k]);
            }
        }
    }
}

/// The tags that are read are on file for their own repository, and those of
/// every other repository are as they were.
pub proof fn law_tags_are_kept_for_their_own_repository(
    store: AzureStore,
    registry: String,
    repo: String,
    result: Result<Vec<Tag>, String>,
    now: Timestamp,
    then: AzureStore,
    applied: Applied,
    other_registry: Seq<char>,
    other_repo: Seq<char>,
)
    requires
        store.after(worker::Event::Tags { registry, repo, result }, now, then, applied),
    ensures
        then.tags_read(registry@, repo@) == Some(result),
        other_registry != registry@ || other_repo != repo@ ==> then.tags_read(
            other_registry,
            other_repo,
        ) == store.tags_read(other_registry, other_repo),
        then.secrets == store.secrets,
        then.repositories == store.repositories,
        then.manifests == store.manifests,
        then.versions == store.versions,
        applied is Detail,
{
    let before = store.tags@;
    let after = then.tags@;
    lemma_tags_place(before, registry@, repo@);
    let at = tags_at(before, registry@, repo@);
    assert(after[at].registry == registry && after[at].repo == repo && after[at].result == result);
    lemma_tags_at(after, registry@, repo@, at);
    if other_registry != registry@ || other_repo != repo@ {
        lemma_tags_place(before, other_registry, other_repo);
        let old_at = tags_at(before, other_registry, other_repo);
        if old_at < before.len() {
            assert(after[old_at] == before[old_at]);
            assert forall|k: int| 0 <= k < old_at implies !((#[trigger] after[k]).registry@
                == other_registry && after[k].repo@ == other_repo) by {
                if k != at {
                    assert(after[k] == before[k]);
                }
            }
            lemma_tags_at(after, other_registry, other_repo, old_at);
        } else {
            assert forall|k: int| 0 <= k < after.len() implies !((#[trigger] after[k]).registry@
                == other_registry && after[k].repo@ == other_repo) by {
                if k != at {
                    assert(after[k] == before[k]);
                }
            }
            lemma_tags_at(after, other_registry, other_repo, after.len() as int);
        }
    }
}

/// What a manifest or a secret's versions answered is on file under what was
/// asked about, and nothing else is lost.
pub proof fn law_details_are_kept_under_their_own_names(
    store: AzureStore,
    registry: String,
    repo: String,
    digest: String,
    manifest: Result<Manifest, String>,
    vault: String,
    name: String,
    versions: Result<Vec<SecretVersion>, String>,
    now: Timestamp,
    then: AzureStore,
    applied: Applied,
)
    ensures
        store.after(
            worker::Event::Manifest { registry, repo, digest, result: manifest },
            now,
            then,
            applied,
        ) ==> {
            &&& then.manifests@.contains(ManifestRead { registry, repo, digest, result: manifest })
            &&& then.manifest_read(registry@, repo@, digest@)
            &&& forall|i: int|
                0 <= i < store.manifests@.len() && !((#[trigger] store.manifests@[i]).registry@
                    == registry@ && store.manifests@[i].repo@ == repo@
                    && store.manifests@[i].digest@ == digest@) ==> then.manifests@[i]
                    == store.manifests@[i]
            &&& then.tags == store.tags
            &&& then.versions == store.versions
        },
        store.after(
            worker::Event::Versions { vault, name, result: versions },
            now,
            then,
            applied,
        ) ==> {
            &&& then.versions@.contains(VersionsRead { vault, name, result: versions })
            &&& then.versions_read(vault@, name@)
            &&& forall|i: int|
                0 <= i < store.versions@.len() && !((#[trigger] store.versions@[i]).vault@ == vault@
                    && store.versions@[i].name@ == name@) ==> then.versions@[i]
                    == store.versions@[i]
            &&& then.tags == store.tags
            &&& then.manifests == store.manifests
        },
{
    lemma_manifest_place(store.manifests@, registry@, repo@, digest@);
    let at = manifest_at(store.manifests@, registry@, repo@, digest@);
    if store.after(
        worker::Event::Manifest { registry, repo, digest, result: manifest },
        now,
        then,
        applied,
    ) {
        assert(then.manifests@[at] == (ManifestRead { registry, repo, digest, result: manifest }));
    }
    lemma_versions_place(store.versions@, vault@, name@);
    let here = versions_at(store.versions@, vault@, name@);
    if store.after(worker::Event::Versions { vault, name, result: versions }, now, then, applied) {
        assert(then.versions@[here] == (VersionsRead { vault, name, result: versions }));
    }
}

proof fn lemma_manifest_place(
    list: Seq<ManifestRead>,
    registry: Seq<char>,
    repo: Seq<char>,
    digest: Seq<char>,
)
    ensures
        ({
            let at = manifest_at(list, registry, repo, digest);
            &&& 0 <= at <= list.len()
            &&& at < list.len() ==> list[at].registry@ == registry && list[at].repo@ == repo
                && list[at].digest@ == digest
        }),
    decreases list.len(),
{
    if list.len() > 0 {
        lemma_manifest_place(list.skip(1), registry, repo, digest);
    }
}

proof fn lemma_versions_place(list: Seq<VersionsRead>, vault: Seq<char>, name: Seq<char>)
    ensures
        ({
            let at = versions_at(list, vault, name);
            &&& 0 <= at <= list.len()
            &&& at < list.len() ==> list[at].vault@ == vault && list[at].name@ == name
        }),
    decreases list.len(),
{
    if list.len() > 0 {
        lemma_versions_place(list.skip(1), vault, name);
    }
}

/// An inventory that is read is the one on file; a reading is under way from
/// its first word to its end, which is when it was read.
pub proof fn law_a_reading_is_told_as_it_goes(
    store: AzureStore,
    inventory: crate::azure::Inventory,
    text: String,
    now: Timestamp,
    then: AzureStore,
    applied: Applied,
)
    ensures
        store.after(worker::Event::Inventory(Ok(inventory)), now, then, applied) ==> then.inventory
            == inventory && then.secrets == store.secrets && then.repositories
            == store.repositories,
        store.after(worker::Event::Progress(text), now, then, applied) ==> then.refreshing
            && then.progress == Some(text) && then.read_at == store.read_at,
        store.after(worker::Event::Idle, now, then, applied) ==> !then.refreshing && then.progress
            is None && then.read_at == Some(now),
{
}

/// A vault and a registry are found by their exact names.
pub proof fn law_a_resource_is_found_by_its_name(store: AzureStore, name: Seq<char>)
    ensures
        store.vault_named(name) matches Some(vault) ==> vault.name@ == name
            && store.inventory.vaults@.contains(vault),
        store.vault_named(name) is None ==> forall|k: int|
            0 <= k < store.inventory.vaults@.len() ==> (
            #[trigger] store.inventory.vaults@[k]).name@ != name,
        store.registry_named(name) matches Some(registry) ==> registry.name@ == name
            && store.inventory.registries@.contains(registry),
        store.registry_named(name) is None ==> forall|k: int|
            0 <= k < store.inventory.registries@.len() ==> (
            #[trigger] store.inventory.registries@[k]).name@ != name,
{
    let vaults = store.inventory.vaults@;
    let is_it = |vault: crate::azure::Vault| vault.name@ == name;
    lemma_first_place(vaults, is_it);
    let at = first_place(vaults, is_it);
    assert forall|k: int| 0 <= k < at implies (#[trigger] vaults[k]).name@ != name by {
        assert(!is_it(vaults[k]));
    }
    lemma_vault_at(vaults, name, at);
    let registries = store.inventory.registries@;
    let is_that = |registry: crate::azure::Registry| registry.name@ == name;
    lemma_first_place(registries, is_that);
    let here = first_place(registries, is_that);
    assert forall|k: int| 0 <= k < here implies (#[trigger] registries[k]).name@ != name by {
        assert(!is_that(registries[k]));
    }
    lemma_registry_at(registries, name, here);
}

/// Rows of a cluster that are read take the place of those of their kind in
/// their own scope, and of no others.
pub proof fn law_a_clusters_rows_land_in_their_own_scope(
    store: Store,
    scope: usize,
    pods: Vec<Pod>,
    events: Vec<K8sEvent>,
    maps: Vec<ConfigMap>,
    secrets: Vec<SecretMeta>,
    now: Timestamp,
    then: Store,
    applied: KubeApplied,
)
    requires
        scope < store.scopes@.len(),
    ensures
        store.after(kube::Event::Pods { scope, pods: Ok(pods) }, now, then, applied) ==> {
            let (a, b) = (store.scopes@[scope as int], then.scopes@[scope as int]);
            &&& b.pods.rows == pods && b.pods.error is None && b.pods.read_at == Some(now)
            &&& b.events == a.events && b.configmaps == a.configmaps && b.secrets == a.secrets
            &&& !b.reading
        },
        store.after(kube::Event::Events { scope, events: Ok(events) }, now, then, applied) ==> {
            let (a, b) = (store.scopes@[scope as int], then.scopes@[scope as int]);
            &&& b.events.rows == events && b.events.error is None && b.events.read_at == Some(now)
            &&& b.pods == a.pods && b.configmaps == a.configmaps && b.secrets == a.secrets
        },
        store.after(kube::Event::ConfigMaps { scope, configmaps: Ok(maps) }, now, then, applied)
            ==> {
            let (a, b) = (store.scopes@[scope as int], then.scopes@[scope as int]);
            &&& b.configmaps.rows == maps && b.configmaps.error is None && b.configmaps.read_at
                == Some(now)
            &&& b.pods == a.pods && b.events == a.events && b.secrets == a.secrets
        },
        store.after(kube::Event::Secrets { scope, secrets: Ok(secrets) }, now, then, applied) ==> {
            let (a, b) = (store.scopes@[scope as int], then.scopes@[scope as int]);
            &&& b.secrets.rows == secrets && b.secrets.error is None && b.secrets.read_at
                == Some(now)
            &&& b.pods == a.pods && b.events == a.events && b.configmaps == a.configmaps
        },
{
}

/// Whether rows that were read, or a reading that began, are of a scope.
pub open spec fn is_of_scope(event: kube::Event, at: int) -> bool {
    match event {
        kube::Event::Pods { scope, .. } => scope == at,
        kube::Event::Events { scope, .. } => scope == at,
        kube::Event::ConfigMaps { scope, .. } => scope == at,
        kube::Event::Secrets { scope, .. } => scope == at,
        kube::Event::Reading { scope } => scope == at,
        _ => false,
    }
}

/// News of one scope leaves every other, and all of Azure, as it was; a read
/// that fails leaves the rows and says why.
pub proof fn law_a_clusters_news_stays_in_its_scope(
    store: Store,
    event: kube::Event,
    now: Timestamp,
    then: Store,
    applied: KubeApplied,
    other: int,
)
    requires
        store.after(event, now, then, applied),
    ensures
        then.azure == store.azure,
        then.scopes@.len() == store.scopes@.len(),
        0 <= other < store.scopes@.len() && !is_of_scope(event, other) ==> then.scopes@[other]
            == store.scopes@[other],
        event matches kube::Event::Pods { scope, pods: Err(message) } ==> scope
            < store.scopes@.len() ==> {
            let (a, b) = (store.scopes@[scope as int].pods, then.scopes@[scope as int].pods);
            b.rows == a.rows && b.error == Some(message) && b.read_at == a.read_at
        },
        event matches kube::Event::Events { scope, events: Err(message) } ==> scope
            < store.scopes@.len() ==> {
            let (a, b) = (store.scopes@[scope as int].events, then.scopes@[scope as int].events);
            b.rows == a.rows && b.error == Some(message) && b.read_at == a.read_at
        },
{
}

/// How many are so.
pub open spec fn tally<T>(rows: Seq<T>, test: spec_fn(T) -> bool) -> int
    decreases rows.len(),
{
    if rows.len() == 0 {
        0
    } else {
        tally(rows.drop_last(), test) + if test(rows.last()) {
            1int
        } else {
            0
        }
    }
}

/// The number on a scope's badge counts the pods that run with a container
/// down, and those that neither run nor are done.
pub proof fn law_the_pods_in_trouble_are_counted(rows: Seq<Pod>)
    ensures
        troubled(rows) == tally(
            rows,
            |pod: Pod|
                if pod.status@ == "Running"@ {
                    pod.ready.0 < pod.ready.1
                } else {
                    pod.status@ != "Completed"@ && pod.status@ != "Succeeded"@
                },
        ),
    decreases rows.len(),
{
    if rows.len() > 0 {
        law_the_pods_in_trouble_are_counted(rows.drop_last());
    }
}

/// The number on the Secrets tab's badge counts the enabled secrets whose
/// expiry is set and has passed, or is at most thirty days and the rest of that
/// day away.
pub proof fn law_the_secrets_running_out_are_counted(rows: Seq<SecretRow>, now: Timestamp)
    requires
        forall|i: int|
            0 <= i < rows.len() && (#[trigger] rows[i]).expires is Some ==> i64::MIN
                <= rows[i].expires->0.seconds - now.seconds <= i64::MAX,
    ensures
        running_out_count(rows, now) == tally(
            rows,
            |row: SecretRow|
                row.enabled && row.expires is Some && row.expires->0.seconds < now.seconds + 31
                    * 86_400,
        ),
    decreases rows.len(),
{
    reveal(Seq::filter);
    let all = |row: SecretRow| running_out(row, now);
    if rows.len() > 0 {
        let before = rows.drop_last();
        assert forall|i: int|
            0 <= i < before.len() && (#[trigger] before[i]).expires is Some implies i64::MIN
            <= before[i].expires->0.seconds - now.seconds <= i64::MAX by {
            assert(before[i] == rows[i]);
        }
        law_the_secrets_running_out_are_counted(before, now);
        assert(rows[rows.len() - 1] == rows.last());
    }
}

} // verus!
