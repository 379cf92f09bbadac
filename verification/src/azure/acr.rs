//! The container registry data plane: the catalog, one repository's
//! attributes, its tags newest first, and one manifest.
//!
//! ARM does not sign these calls. The registry mints its own tokens, from a
//! CLI token for the `containerregistry` audience, in two form posts that the
//! client makes. Everything after them goes through
//! [`Client::call`] like every other read, so the 401 and 429 policy is
//! written once.
//!
//! The endpoints are the `/acr/v1/` ones, which carry attributes. The `/v2/`
//! ones are the OCI distribution API and carry names only.

use vstd::prelude::*;

use super::auth::{Audience, AudienceView, TokenSource};
use super::encode::{escaped, path, path_text, percent_encode};
use super::failure::{Failure, FailureView};
use super::graph::PAGES;
pub use super::size::human_size;
use super::json::{as_str, as_u64, held, string, text, Json, JsonView};
use super::transport::{
    explain_registry, registry_refusal, Client, ClientView, Clock, Request, RequestView, Transport,
};
use super::vault::{endless, listing_said};
use super::{
    views, Manifest, ManifestView, Registry, RegistryView, Repository, RepositoryView, Tag, TagView,
};
use crate::filter::{find_char, first_at};
use crate::kube::{said, same_text};
use crate::text::{chars_of, parse_whole, slice_text, texts, trim, trimmed, whole};
use crate::timestamp::{rfc3339_seconds, stamp_of, Timestamp};

verus! {

/// How many entries a paged listing asks for at once. A short page is how the
/// end of a listing announces itself.
pub const PAGE: usize = 100;

// ---------------------------------------------------------------------------
// Fields
// ---------------------------------------------------------------------------

/// A moment written in RFC 3339.
pub open spec fn stamp_in(value: JsonView) -> Option<Timestamp> {
    match value.some_text() {
        Some(text) => stamp_of(rfc3339_seconds(text)),
        None => None,
    }
}

/// A count, whichever way it was written: a registry sends these as numbers,
/// but a string of digits is the same answer.
pub open spec fn count_in(value: JsonView) -> Option<u64> {
    match value.natural() {
        Some(n) => Some(n),
        None => match value.text() {
            Some(text) => match whole(trimmed(text)) {
                Some(n) if n <= u64::MAX => Some(n as u64),
                _ => None,
            },
            None => None,
        },
    }
}

/// The texts among some values, trimmed, the blank ones left out.
pub open spec fn some_texts(values: Seq<JsonView>) -> Seq<Seq<char>>
    decreases values.len(),
{
    if values.len() == 0 {
        Seq::empty()
    } else {
        let before = some_texts(values.drop_last());
        match values.last().some_text() {
            Some(text) => before.push(text),
            None => before,
        }
    }
}

/// The tag an entry of a listing is.
pub open spec fn tag_in(entry: JsonView) -> Option<TagView> {
    match entry.member("name"@).some_text() {
        None => None,
        Some(name) => Some(
            TagView {
                name,
                digest: entry.member("digest"@).any_text(),
                created: stamp_in(entry.member("createdTime"@)),
                updated: stamp_in(entry.member("lastUpdateTime"@)),
            },
        ),
    }
}

/// The tags among some entries, in the order the registry gave them.
pub open spec fn tags_in(entries: Seq<JsonView>) -> Seq<TagView>
    decreases entries.len(),
{
    if entries.len() == 0 {
        Seq::empty()
    } else {
        let before = tags_in(entries.drop_last());
        match tag_in(entries.last()) {
            Some(tag) => before.push(tag),
            None => before,
        }
    }
}

/// A repository, with what the catalog left out filled in.
pub open spec fn repository_in(registry: Seq<char>, name: Seq<char>, answer: JsonView) -> RepositoryView {
    RepositoryView {
        registry,
        name: match answer.member("imageName"@).some_text() {
            Some(text) => text,
            None => name,
        },
        tag_count: count_in(answer.member("tagCount"@)),
        manifest_count: count_in(answer.member("manifestCount"@)),
        created: stamp_in(answer.member("createdTime"@)),
        updated: stamp_in(answer.member("lastUpdateTime"@)),
    }
}

/// A manifest. The singular call nests everything under `manifest`, unlike the
/// listing whose items sit in `manifests[]` directly.
pub open spec fn manifest_in(digest: Seq<char>, answer: JsonView) -> ManifestView {
    let held = if answer.member("manifest"@) is Object {
        answer.member("manifest"@)
    } else {
        answer
    };
    ManifestView {
        digest: match held.member("digest"@).some_text() {
            Some(text) => text,
            None => digest,
        },
        size: count_in(held.member("imageSize"@)),
        architecture: held.member("architecture"@).some_text(),
        os: held.member("os"@).some_text(),
        created: stamp_in(held.member("createdTime"@)),
        tags: some_texts(held.member("tags"@).items()),
    }
}

fn stamp(value: Option<&Json>) -> (r: Option<Timestamp>)
    ensures
        r == stamp_in(held(value)),
{
    match text(value) {
        Some(text) => Timestamp::parse(text.as_str()),
        None => None,
    }
}

fn count(value: Option<&Json>) -> (r: Option<u64>)
    ensures
        r == count_in(held(value)),
{
    match as_u64(value) {
        Some(n) => Some(n),
        None => match as_str(value) {
            Some(text) => parse_whole(trim(text).as_str()),
            None => None,
        },
    }
}

fn read_texts(value: Option<&Json>) -> (r: Vec<String>)
    ensures
        texts(r@) == some_texts(held(value).items()),
{
    let ghost all = held(value).items();
    let mut out: Vec<String> = Vec::new();
    proof {
        assert(texts(out@) =~= Seq::<Seq<char>>::empty());
        assert(all.take(0) =~= Seq::<JsonView>::empty());
    }
    let items = match value {
        Some(value) => value.items(),
        None => None,
    };
    if let Some(items) = items {
        let mut i: usize = 0;
        while i < items.len()
            invariant
                i <= items@.len(),
                all.len() == items@.len(),
                forall|k: int| 0 <= k < items@.len() ==> (#[trigger] items@[k])@ == all[k],
                texts(out@) == some_texts(all.take(i as int)),
            decreases items@.len() - i,
        {
            proof {
                assert(all.take(i + 1).drop_last() =~= all.take(i as int));
                assert(all.take(i + 1).last() == items@[i as int]@);
            }
            if let Some(text) = text(Some(&items[i])) {
                let ghost before = out@;
                let ghost said = text@;
                out.push(text);
                proof {
                    assert(texts(out@) =~= texts(before).push(said));
                }
            }
            i = i + 1;
        }
        proof {
            assert(all.take(all.len() as int) =~= all);
        }
    } else {
        proof {
            assert(all =~= all.take(0));
        }
    }
    out
}

fn tag(entry: &Json) -> (r: Option<Tag>)
    ensures
        match r {
            Some(tag) => tag_in(entry@) == Some(tag@),
            None => tag_in(entry@) is None,
        },
{
    match text(entry.get("name")) {
        None => None,
        Some(name) => Some(
            Tag {
                name,
                digest: string(entry.get("digest")),
                created: stamp(entry.get("createdTime")),
                updated: stamp(entry.get("lastUpdateTime")),
            },
        ),
    }
}

fn read_tags(value: Option<&Json>) -> (r: Vec<Tag>)
    ensures
        views(r@) == tags_in(held(value).items()),
{
    let ghost all = held(value).items();
    let mut out: Vec<Tag> = Vec::new();
    proof {
        assert(views(out@) =~= Seq::<TagView>::empty());
        assert(all.take(0) =~= Seq::<JsonView>::empty());
    }
    let items = match value {
        Some(value) => value.items(),
        None => None,
    };
    if let Some(items) = items {
        let mut i: usize = 0;
        while i < items.len()
            invariant
                i <= items@.len(),
                all.len() == items@.len(),
                forall|k: int| 0 <= k < items@.len() ==> (#[trigger] items@[k])@ == all[k],
                views(out@) == tags_in(all.take(i as int)),
            decreases items@.len() - i,
        {
            proof {
                assert(all.take(i + 1).drop_last() =~= all.take(i as int));
                assert(all.take(i + 1).last() == items@[i as int]@);
            }
            if let Some(tag) = tag(&items[i]) {
                let ghost before = out@;
                let ghost said = tag@;
                out.push(tag);
                proof {
                    assert(views(out@) =~= views(before).push(said));
                }
            }
            i = i + 1;
        }
        proof {
            assert(all.take(all.len() as int) =~= all);
        }
    } else {
        proof {
            assert(all =~= all.take(0));
        }
    }
    out
}

// ---------------------------------------------------------------------------
// Addresses
// ---------------------------------------------------------------------------

/// What a catalog listing is signed for.
pub open spec fn catalog_audience(login_server: Seq<char>) -> AudienceView {
    AudienceView::Acr { login_server, scope: "registry:catalog:*"@ }
}

/// What one repository's own calls are signed for. `metadata_read` is the
/// action the `/acr/v1/` endpoints want; `pull` is for `/v2/` blobs.
pub open spec fn repository_audience(login_server: Seq<char>, repo: Seq<char>) -> AudienceView {
    AudienceView::Acr { login_server, scope: "repository:"@ + repo + ":metadata_read"@ }
}

/// Where a listing goes on from.
pub open spec fn going_on(url: Seq<char>, last: Option<Seq<char>>) -> Seq<char> {
    match last {
        Some(last) => url + "&last="@ + escaped(last),
        None => url,
    }
}

pub open spec fn catalog_url(login_server: Seq<char>, last: Option<Seq<char>>) -> Seq<char> {
    going_on("https://"@ + login_server + "/acr/v1/_catalog?n=100"@, last)
}

pub open spec fn repository_url(login_server: Seq<char>, repo: Seq<char>) -> Seq<char> {
    "https://"@ + login_server + "/acr/v1/"@ + path_text(repo)
}

pub open spec fn tags_url_text(login_server: Seq<char>, repo: Seq<char>, last: Option<Seq<char>>) -> Seq<
    char,
> {
    going_on(repository_url(login_server, repo) + "/_tags?n=100&orderby=timedesc"@, last)
}

pub open spec fn manifest_url(login_server: Seq<char>, repo: Seq<char>, digest: Seq<char>) -> Seq<
    char,
> {
    repository_url(login_server, repo) + "/_manifests/"@ + digest
}

fn push_last(url: &mut String, last: &Option<String>)
    ensures
        final(url)@ == going_on(old(url)@, said(*last)),
{
    if let Some(last) = last {
        url.push_str("&last=");
        percent_encode(last.as_str(), url);
    }
}

fn url_of(registry: &Registry, repo: &str) -> (r: String)
    ensures
        r@ == repository_url(registry.login_server@, repo@),
{
    let mut url = "https://".to_owned();
    url.push_str(registry.login_server.as_str());
    url.push_str("/acr/v1/");
    url.push_str(path(repo).as_str());
    url
}

fn metadata_audience(registry: &Registry, repo: &str) -> (r: Audience)
    ensures
        r@ == repository_audience(registry.login_server@, repo@),
{
    let mut scope = "repository:".to_owned();
    scope.push_str(repo);
    scope.push_str(":metadata_read");
    Audience::Acr { login_server: registry.login_server.clone(), scope }
}

// ---------------------------------------------------------------------------
// The calls
// ---------------------------------------------------------------------------

/// The last of some texts.
pub open spec fn last_text(all: Seq<Seq<char>>) -> Option<Seq<char>> {
    if all.len() > 0 {
        Some(all.last())
    } else {
        None
    }
}

/// The name of the last of some tags.
pub open spec fn last_tag(all: Seq<TagView>) -> Option<Seq<char>> {
    if all.len() > 0 {
        Some(all.last().name)
    } else {
        None
    }
}

/// Whether a page of that many is the end: a short one is, and one that did
/// not move the cursor on would be asked for for ever, whatever it claimed to
/// be full of.
pub open spec fn is_the_end(
    listed: int,
    last: Option<Seq<char>>,
    previous: Option<Seq<char>>,
) -> bool {
    listed < PAGE || last is None || last == previous
}

impl ClientView {
    /// A registry's catalog, read on from a name with those before it.
    pub open spec fn catalog_listed(
        self,
        registry: RegistryView,
        last: Option<Seq<char>>,
        names: Seq<Seq<char>>,
        left: nat,
    ) -> (Self, Result<Seq<Seq<char>>, FailureView>)
        decreases left,
    {
        if left == 0 {
            (self, Err(endless()))
        } else {
            let (then, answer) = self.called(
                catalog_audience(registry.login_server),
                RequestView::get(catalog_url(registry.login_server, last)),
            );
            match answer {
                Err(failure) => (then, Err(registry_refusal(registry.login_server, failure))),
                Ok(page) => {
                    let listed = some_texts(page.member("repositories"@).items());
                    let next = last_text(listed);
                    if is_the_end(listed.len() as int, next, last) {
                        (then, Ok(names + listed))
                    } else {
                        then.catalog_listed(registry, next, names + listed, (left - 1) as nat)
                    }
                },
            }
        }
    }

    /// One repository's counts and stamps.
    pub open spec fn attributes_read(self, registry: RegistryView, name: Seq<char>) -> (
        Self,
        Result<RepositoryView, FailureView>,
    ) {
        let (then, answer) = self.called(
            repository_audience(registry.login_server, name),
            RequestView::get(repository_url(registry.login_server, name)),
        );
        (
            then,
            match answer {
                Err(failure) => Err(registry_refusal(registry.login_server, failure)),
                Ok(answer) => Ok(repository_in(registry.name, name, answer)),
            },
        )
    }

    /// One repository's tags, read on from a name with those before it.
    pub open spec fn tags_listed(
        self,
        registry: RegistryView,
        repo: Seq<char>,
        last: Option<Seq<char>>,
        tags: Seq<TagView>,
        left: nat,
    ) -> (Self, Result<Seq<TagView>, FailureView>)
        decreases left,
    {
        if left == 0 {
            (self, Err(endless()))
        } else {
            let (then, answer) = self.called(
                repository_audience(registry.login_server, repo),
                RequestView::get(tags_url_text(registry.login_server, repo, last)),
            );
            match answer {
                Err(failure) => (then, Err(registry_refusal(registry.login_server, failure))),
                Ok(page) => {
                    let listed = tags_in(page.member("tags"@).items());
                    let next = last_tag(listed);
                    if is_the_end(listed.len() as int, next, last) {
                        (then, Ok(tags + listed))
                    } else {
                        then.tags_listed(registry, repo, next, tags + listed, (left - 1) as nat)
                    }
                },
            }
        }
    }

    /// What one tag points at.
    pub open spec fn manifest_read(
        self,
        registry: RegistryView,
        repo: Seq<char>,
        digest: Seq<char>,
    ) -> (Self, Result<ManifestView, FailureView>) {
        let (then, answer) = self.called(
            repository_audience(registry.login_server, repo),
            RequestView::get(manifest_url(registry.login_server, repo, digest)),
        );
        (
            then,
            match answer {
                Err(failure) => Err(registry_refusal(registry.login_server, failure)),
                Ok(answer) => Ok(manifest_in(digest, answer)),
            },
        )
    }
}

/// What a listing of names came to.
pub open spec fn names_said(result: Result<Vec<String>, Failure>) -> Result<
    Seq<Seq<char>>,
    FailureView,
> {
    match result {
        Ok(names) => Ok(texts(names@)),
        Err(failure) => Err(failure@),
    }
}

/// What one read came to.
pub open spec fn one_said<T: View>(result: Result<T, Failure>) -> Result<T::V, FailureView> {
    match result {
        Ok(held) => Ok(held@),
        Err(failure) => Err(failure@),
    }
}

fn last_name(all: &Vec<String>) -> (r: Option<String>)
    ensures
        said(r) == last_text(texts(all@)),
{
    proof {
        assert(texts(all@).len() == all@.len());
    }
    if all.len() > 0 {
        proof {
            assert(texts(all@).last() == all@.last()@);
        }
        Some(all[all.len() - 1].clone())
    } else {
        None
    }
}

/// Every repository in one registry, by name. A catalog is names and nothing
/// else; the counts arrive from [`attributes`].
pub fn repositories<T: TokenSource, H: Transport, C: Clock>(
    client: &mut Client<T, H, C>,
    registry: &Registry,
) -> (r: Result<Vec<String>, Failure>)
    ensures
        (final(client)@, names_said(r)) == old(client)@.catalog_listed(
            registry@,
            None,
            Seq::empty(),
            PAGES as nat,
        ),
{
    let audience = Audience::Acr {
        login_server: registry.login_server.clone(),
        scope: "registry:catalog:*".to_owned(),
    };
    let mut names: Vec<String> = Vec::new();
    let mut last: Option<String> = None;
    let mut left: u64 = PAGES;
    proof {
        assert(texts(names@) =~= Seq::<Seq<char>>::empty());
    }
    while left > 0
        invariant
            audience@ == catalog_audience(registry@.login_server),
            client@.catalog_listed(registry@, said(last), texts(names@), left as nat) == old(
                client,
            )@.catalog_listed(registry@, None, Seq::empty(), PAGES as nat),
        decreases left,
    {
        let mut url = "https://".to_owned();
        url.push_str(registry.login_server.as_str());
        url.push_str("/acr/v1/_catalog?n=100");
        push_last(&mut url, &last);
        let page = match client.call(&audience, Request::get(url.as_str())) {
            Ok(page) => page,
            Err(failure) => return Err(
                explain_registry(registry.login_server.as_str(), failure),
            ),
        };
        let mut listed = read_texts(page.get("repositories"));
        let next = last_name(&listed);
        proof {
            assert(texts(listed@).len() == listed@.len());
            assert(texts(names@ + listed@) =~= texts(names@) + texts(listed@));
        }
        // A page that did not move the cursor on would be asked for for ever,
        // whatever it claimed to be full of.
        let ended = listed.len() < PAGE || next.is_none() || same_text(&next, &last);
        names.append(&mut listed);
        if ended {
            return Ok(names);
        }
        last = next;
        left = left - 1;
    }
    Err(Failure::other("the listing never came to an end".to_owned()))
}

/// One repository's counts and stamps, which the catalog does not carry. One
/// call per repository, which is why the worker runs these as a low-priority
/// fill after the names are already on screen.
pub fn attributes<T: TokenSource, H: Transport, C: Clock>(
    client: &mut Client<T, H, C>,
    registry: &Registry,
    name: &str,
) -> (r: Result<Repository, Failure>)
    ensures
        (final(client)@, one_said(r)) == old(client)@.attributes_read(registry@, name@),
{
    let url = url_of(registry, name);
    let answer = match client.call(
        &metadata_audience(registry, name),
        Request::get(url.as_str()),
    ) {
        Ok(answer) => answer,
        Err(failure) => return Err(explain_registry(registry.login_server.as_str(), failure)),
    };
    Ok(
        Repository {
            registry: registry.name.clone(),
            name: match text(answer.get("imageName")) {
                Some(text) => text,
                None => name.to_owned(),
            },
            tag_count: count(answer.get("tagCount")),
            manifest_count: count(answer.get("manifestCount")),
            created: stamp(answer.get("createdTime")),
            updated: stamp(answer.get("lastUpdateTime")),
        },
    )
}

fn last_tag_name(all: &Vec<Tag>) -> (r: Option<String>)
    ensures
        said(r) == last_tag(views(all@)),
{
    proof {
        assert(views(all@).len() == all@.len());
    }
    if all.len() > 0 {
        proof {
            assert(views(all@).last() == all@.last()@);
        }
        Some(all[all.len() - 1].name.clone())
    } else {
        None
    }
}

/// One repository's tags, in the order the registry gives them, which
/// `orderby=timedesc` makes newest first.
pub fn tags<T: TokenSource, H: Transport, C: Clock>(
    client: &mut Client<T, H, C>,
    registry: &Registry,
    repo: &str,
) -> (r: Result<Vec<Tag>, Failure>)
    ensures
        (final(client)@, listing_said(r)) == old(client)@.tags_listed(
            registry@,
            repo@,
            None,
            Seq::empty(),
            PAGES as nat,
        ),
{
    let audience = metadata_audience(registry, repo);
    let mut tags: Vec<Tag> = Vec::new();
    let mut last: Option<String> = None;
    let mut left: u64 = PAGES;
    proof {
        assert(views(tags@) =~= Seq::<TagView>::empty());
    }
    while left > 0
        invariant
            audience@ == repository_audience(registry@.login_server, repo@),
            client@.tags_listed(registry@, repo@, said(last), views(tags@), left as nat) == old(
                client,
            )@.tags_listed(registry@, repo@, None, Seq::empty(), PAGES as nat),
        decreases left,
    {
        let mut url = url_of(registry, repo);
        url.push_str("/_tags?n=100&orderby=timedesc");
        push_last(&mut url, &last);
        let page = match client.call(&audience, Request::get(url.as_str())) {
            Ok(page) => page,
            Err(failure) => return Err(
                explain_registry(registry.login_server.as_str(), failure),
            ),
        };
        let mut listed = read_tags(page.get("tags"));
        let next = last_tag_name(&listed);
        proof {
            assert(views(listed@).len() == listed@.len());
            assert(views(tags@ + listed@) =~= views(tags@) + views(listed@));
        }
        let ended = listed.len() < PAGE || next.is_none() || same_text(&next, &last);
        tags.append(&mut listed);
        if ended {
            return Ok(tags);
        }
        last = next;
        left = left - 1;
    }
    Err(Failure::other("the listing never came to an end".to_owned()))
}

/// What one tag points at. A multi-arch index names no architecture; the
/// details pane prints `index` for it.
pub fn manifest<T: TokenSource, H: Transport, C: Clock>(
    client: &mut Client<T, H, C>,
    registry: &Registry,
    repo: &str,
    digest: &str,
) -> (r: Result<Manifest, Failure>)
    ensures
        (final(client)@, one_said(r)) == old(client)@.manifest_read(registry@, repo@, digest@),
{
    let mut url = url_of(registry, repo);
    url.push_str("/_manifests/");
    url.push_str(digest);
    let answer = match client.call(
        &metadata_audience(registry, repo),
        Request::get(url.as_str()),
    ) {
        Ok(answer) => answer,
        Err(failure) => return Err(explain_registry(registry.login_server.as_str(), failure)),
    };
    let held = match answer.get("manifest") {
        Some(nested) => if nested.is_object() {
            nested
        } else {
            &answer
        },
        None => &answer,
    };
    Ok(
        Manifest {
            digest: match text(held.get("digest")) {
                Some(text) => text,
                None => digest.to_owned(),
            },
            size: count(held.get("imageSize")),
            architecture: text(held.get("architecture")),
            os: text(held.get("os")),
            created: stamp(held.get("createdTime")),
            tags: read_texts(held.get("tags")),
        },
    )
}

// ---------------------------------------------------------------------------
// What a cell shows
// ---------------------------------------------------------------------------

/// A digest with its algorithm and no more than eight characters behind it.
pub open spec fn short_text(digest: Seq<char>) -> Seq<char> {
    let at = first_at(digest, ':');
    if at < digest.len() && digest.len() - at - 1 > 8 {
        digest.take(at + 9)
    } else {
        digest
    }
}

/// A digest short enough for a cell: the algorithm and eight hex characters.
/// The details pane prints the whole thing. Counted in characters: the string
/// is whatever the registry sent, and a byte slice through a multi-byte one
/// would panic in the middle of a frame.
#[must_use]
pub fn short_digest(digest: &str) -> (r: String)
    ensures
        r@ == short_text(digest@),
{
    let chars = chars_of(digest);
    let at: usize = find_char(&chars, ':');
    if at < chars.len() && chars.len() - at - 1 > 8 {
        let cut = slice_text(&chars, 0, at + 9);
        proof {
            assert(cut@ =~= digest@.take(at + 9));
        }
        cut
    } else {
        digest.to_owned()
    }
}

/// What `docker pull` takes.
pub open spec fn pull_text(login_server: Seq<char>, repo: Seq<char>, tag: Seq<char>) -> Seq<char> {
    login_server + "/"@ + repo + ":"@ + tag
}

/// The reference that names a build rather than a moving label.
pub open spec fn digest_text(
    login_server: Seq<char>,
    repo: Seq<char>,
    digest: Seq<char>,
) -> Seq<char> {
    login_server + "/"@ + repo + "@"@ + digest
}

/// The pull reference `y` copies on a tag: what `docker pull` takes.
#[must_use]
pub fn pull_reference(login_server: &str, repo: &str, tag: &str) -> (r: String)
    ensures
        r@ == pull_text(login_server@, repo@, tag@),
{
    let mut text = login_server.to_owned();
    text.push_str("/");
    text.push_str(repo);
    text.push_str(":");
    text.push_str(tag);
    text
}

/// The digest reference `Y` copies: the one that names a build rather than a
/// moving label.
#[must_use]
pub fn digest_reference(login_server: &str, repo: &str, digest: &str) -> (r: String)
    ensures
        r@ == digest_text(login_server@, repo@, digest@),
{
    let mut text = login_server.to_owned();
    text.push_str("/");
    text.push_str(repo);
    text.push_str("@");
    text.push_str(digest);
    text
}

} // verus!
