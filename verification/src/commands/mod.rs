//! The subcommands: the same reads from a shell, for scripts and agents.
//!
//! Each uses the same client the TUI uses, reads the cache when it is fresh
//! enough, and comes to lines or a document.
//!
//! `secret get` is the one command that gives a value. Nothing else does — not
//! `secrets`, not its document, not an error message.

pub mod narrowing;
pub mod print;
pub mod promises;
pub mod read;

use vstd::prelude::*;

use crate::app::registries::{
    answers_all as repository_answers, haystack as repository_haystack, repository_keys,
    repository_passes, repository_schema, searched as repository_searched,
};
use crate::app::secrets::{answers_all, haystack, known_keys, passes, schema, searched};
use crate::azure::acr;
use crate::azure::auth::TokenSource;
use crate::azure::failure::{said as shown, FailureView};
use crate::azure::json::{Json, JsonView};
use crate::azure::readings::{ended, last_answered};
use crate::azure::transport::{Client, ClientView, Clock, Method, Transport};
use crate::azure::vault;
use crate::azure::write::{compact_text, pretty_text, written};
use crate::azure::{
    views, Registry, RegistryView, Repository, RepositoryView, SecretRow, SecretRowView, Vault,
    VaultView,
};
use crate::azure::allow::{absent, allowed, kept, lemma_kept_views, missing, names_of, Named};
use crate::filter::{all_words_in, mentions_all, Query, QueryView};
use crate::text::{equal, join, joined, texts};
use crate::timestamp::Timestamp;
use print::{
    describe_repositories, describe_secrets, describe_tags, describe_value, print_repositories,
    print_secrets, print_tags, repositories_document, repository_lines, secret_lines,
    secrets_document, tag_lines, tags_listed_document, value_document,
};
use promises::{law_secret_get_reads_the_version_it_is_given, tail_of};
use read::{
    catalogs_said, gather_catalogs, inventory, list_catalogs, list_vaults, listings_said,
    narrow_registries, narrow_vaults, read_repositories, read_secrets, refusals_of, registries_for,
    repositories_read, secrets_read, vaults_for, Context,
};

verus! {

/// What a command exits with. 0 ok, 1 a read failed, 2 the arguments were
/// wrong — the shape `grep` and friends use, so a script can tell "nothing
/// matched" from "you asked wrong".
pub const FAILED: i32 = 1;

pub const BAD_ARGUMENTS: i32 = 2;

/// A command that could not be answered as asked, and what to exit with.
#[derive(Debug)]
pub struct Failure {
    pub message: String,
    pub code: i32,
}

pub struct ReasonView {
    pub message: Seq<char>,
    pub code: i32,
}

impl View for Failure {
    type V = ReasonView;

    open spec fn view(&self) -> ReasonView {
        ReasonView { message: self.message@, code: self.code }
    }
}

impl ReasonView {
    pub open spec fn arguments(message: Seq<char>) -> Self {
        ReasonView { message, code: BAD_ARGUMENTS }
    }

    pub open spec fn failed(message: Seq<char>) -> Self {
        ReasonView { message, code: FAILED }
    }

    /// A read that failed, as a person is told of it.
    pub open spec fn of_read(failure: FailureView) -> Self {
        ReasonView::failed(failure.shown())
    }
}

impl Failure {
    #[must_use]
    pub fn arguments(message: String) -> (r: Self)
        ensures
            r@ == ReasonView::arguments(message@),
    {
        Failure { message, code: BAD_ARGUMENTS }
    }

    #[must_use]
    pub fn failed(message: String) -> (r: Self)
        ensures
            r@ == ReasonView::failed(message@),
    {
        Failure { message, code: FAILED }
    }

    /// A read that failed.
    #[must_use]
    pub fn of_read(error: &crate::azure::failure::Failure) -> (r: Self)
        ensures
            r@ == ReasonView::of_read(error@),
    {
        Failure::failed(shown(error))
    }

    /// A write that failed. A reader that went away — `| head -1` — has had
    /// all it wanted: that is a clean exit with nothing said, code 0.
    #[must_use]
    pub fn of_write(reader_went_away: bool, message: String) -> (r: Self)
        ensures
            r@ == if reader_went_away {
                ReasonView { message: Seq::empty(), code: 0 }
            } else {
                ReasonView::failed(message@)
            },
    {
        if reader_went_away {
            let r = Failure { message: String::new(), code: 0 };
            proof {
                assert(r@.message =~= Seq::<char>::empty());
            }
            return r;
        }
        Failure::failed(message)
    }
}

/// What a command comes to: lines, a document, or a value as it is.
#[derive(Debug)]
pub enum Output {
    Lines(String),
    /// A document, written over lines.
    Document(Json),
    /// A document, written on one line.
    Compact(Json),
    /// A value, with no newline of its own: one that ends in one keeps it, and
    /// one that does not is not given one.
    Raw(String),
}

pub enum OutputView {
    Lines(Seq<char>),
    Document(JsonView),
    Compact(JsonView),
    Raw(Seq<char>),
}

impl View for Output {
    type V = OutputView;

    open spec fn view(&self) -> OutputView {
        match self {
            Output::Lines(text) => OutputView::Lines(text@),
            Output::Document(document) => OutputView::Document(document@),
            Output::Compact(document) => OutputView::Compact(document@),
            Output::Raw(text) => OutputView::Raw(text@),
        }
    }
}

/// What is printed of an output, or what to exit with where it cannot be. Lines
/// and a value go out as they are; a document gets a newline of its own.
pub open spec fn printed(output: OutputView) -> Result<Seq<char>, ReasonView> {
    match output {
        OutputView::Lines(text) => Ok(text),
        OutputView::Raw(text) => Ok(text),
        OutputView::Document(document) => match pretty_text(written(document)) {
            Ok(text) => Ok(text + "\n"@),
            Err(message) => Err(ReasonView::failed(message)),
        },
        OutputView::Compact(document) => Ok(compact_text(written(document)) + "\n"@),
    }
}

impl Output {
    /// What is printed of it.
    pub fn text(&self) -> (r: Result<String, Failure>)
        ensures
            match r {
                Ok(text) => printed(self@) == Ok::<Seq<char>, ReasonView>(text@),
                Err(failure) => printed(self@) == Err::<Seq<char>, ReasonView>(failure@),
            },
    {
        match self {
            Output::Lines(text) => Ok(text.clone()),
            Output::Raw(text) => Ok(text.clone()),
            Output::Document(document) => match document.pretty() {
                Ok(text) => {
                    let mut text = text;
                    text.push_str("\n");
                    Ok(text)
                },
                Err(message) => Err(Failure::failed(message)),
            },
            Output::Compact(document) => {
                let mut text = document.compact();
                text.push_str("\n");
                Ok(text)
            },
        }
    }
}

/// What a command came to, or why it came to nothing.
pub open spec fn output_said(result: Result<Output, Failure>) -> Result<OutputView, ReasonView> {
    match result {
        Ok(output) => Ok(output@),
        Err(failure) => Err(failure@),
    }
}

/// What a listing came to: the rows that answered, and what to exit with where
/// something would not answer.
pub open spec fn listing_said(result: Result<(Output, Option<Failure>), Failure>) -> Result<
    (OutputView, Option<ReasonView>),
    ReasonView,
> {
    match result {
        Ok((output, failure)) => Ok(
            (
                output@,
                match failure {
                    Some(failure) => Some(failure@),
                    None => None,
                },
            ),
        ),
        Err(failure) => Err(failure@),
    }
}

/// What a read that may have been turned down before it began came to.
pub open spec fn narrow_said<T: View>(result: Result<Vec<T>, Failure>) -> Result<
    Seq<T::V>,
    ReasonView,
> {
    match result {
        Ok(rows) => Ok(views(rows@)),
        Err(failure) => Err(failure@),
    }
}

// ---------------------------------------------------------------------------
// Which vaults and registries
// ---------------------------------------------------------------------------

/// The allowlist's key for one kind of resource.
pub open spec fn list_text(kind: Seq<char>) -> Seq<char> {
    if kind == "vault"@ {
        "vaults"@
    } else {
        "registries"@
    }
}

/// The flag for one kind of resource.
pub open spec fn flag_text(kind: Seq<char>) -> Seq<char> {
    if kind == "vault"@ {
        "--vault"@
    } else {
        "--registry"@
    }
}

/// The allowlist's key and flag for one kind of resource.
fn allowlist(kind: &str) -> (r: (&'static str, &'static str))
    ensures
        r.0@ == list_text(kind@),
        r.1@ == flag_text(kind@),
{
    if equal(kind, "vault") {
        ("vaults", "--vault")
    } else {
        ("registries", "--registry")
    }
}

/// The first of some names that is not among others.
pub open spec fn first_beyond(names: Seq<Seq<char>>, known: Seq<Seq<char>>) -> Option<Seq<char>>
    decreases names.len(),
{
    if names.len() == 0 {
        None
    } else if !known.contains(names[0]) {
        Some(names[0])
    } else {
        first_beyond(names.skip(1), known)
    }
}

fn is_among(names: &Vec<String>, name: &str) -> (r: bool)
    ensures
        r == texts(names@).contains(name@),
{
    let mut i: usize = 0;
    while i < names.len()
        invariant
            i <= names@.len(),
            forall|k: int| 0 <= k < i ==> (#[trigger] names@[k])@ != name@,
        decreases names@.len() - i,
    {
        if equal(names[i].as_str(), name) {
            proof {
                assert(texts(names@)[i as int] == name@);
            }
            return true;
        }
        i = i + 1;
    }
    proof {
        assert forall|k: int| 0 <= k < texts(names@).len() implies texts(names@)[k] != name@ by {
            assert(texts(names@)[k] == names@[k]@);
        }
    }
    false
}

fn find_beyond<'a>(names: &'a Vec<String>, known: &Vec<String>) -> (r: Option<&'a String>)
    ensures
        match r {
            Some(name) => first_beyond(texts(names@), texts(known@)) == Some(name@),
            None => first_beyond(texts(names@), texts(known@)) is None,
        },
{
    let ghost all = texts(names@);
    let mut i: usize = 0;
    proof {
        assert(all.skip(0) =~= all);
    }
    while i < names.len()
        invariant
            i <= names@.len(),
            all == texts(names@),
            first_beyond(all, texts(known@)) == first_beyond(all.skip(i as int), texts(known@)),
        decreases names@.len() - i,
    {
        proof {
            assert(all.skip(i as int)[0] == names@[i as int]@);
            assert(all.skip(i as int).skip(1) =~= all.skip(i + 1));
        }
        if !is_among(known, names[i].as_str()) {
            return Some(&names[i]);
        }
        i = i + 1;
    }
    None
}

/// The vaults or registries a command reads: the configuration's allowlist
/// first, then the command's own flags on top of it. Naming one the login
/// cannot reach is an argument error that says what it can; naming one the
/// allowlist leaves out says that instead.
pub open spec fn narrowed<V>(
    found: Seq<V>,
    names: Seq<Seq<char>>,
    configured: Seq<Seq<char>>,
    only: Seq<Seq<char>>,
    kind: Seq<char>,
) -> Result<Seq<V>, ReasonView> {
    let unknown = absent(names, only);
    let reachable = kept(found, names, configured);
    let reachable_names = kept(names, names, configured);
    let gone = absent(reachable_names, only);
    match first_beyond(gone, unknown) {
        Some(name) => Err(
            ReasonView::arguments(
                name + " is left out by [azure]."@ + list_text(kind) + " / "@ + flag_text(kind)
                    + " (allowed: "@ + joined(reachable_names, ", "@) + ")"@,
            ),
        ),
        None => if gone.len() > 0 {
            Err(
                ReasonView::arguments(
                    if reachable.len() == 0 {
                        "no "@ + kind + " called "@ + joined(gone, ", "@)
                            + "; the login can reach no "@ + kind
                    } else {
                        "no "@ + kind + " called "@ + joined(gone, ", "@)
                            + "; the login can reach "@ + joined(reachable_names, ", "@)
                    },
                ),
            )
        } else {
            Ok(kept(reachable, reachable_names, only))
        },
    }
}

fn list_names<T: Named>(found: &Vec<T>) -> (r: Vec<String>)
    ensures
        texts(r@) == names_of(found@),
{
    let mut out: Vec<String> = Vec::new();
    let mut i: usize = 0;
    while i < found.len()
        invariant
            i <= found@.len(),
            out@.len() == i,
            forall|k: int| 0 <= k < i ==> (#[trigger] out@[k])@ == found@[k].name_text(),
        decreases found@.len() - i,
    {
        out.push(found[i].name().to_owned());
        i = i + 1;
    }
    proof {
        assert(texts(out@) =~= names_of(found@));
    }
    out
}

proof fn lemma_names_kept<T: Named>(found: Seq<T>, wanted: Seq<Seq<char>>)
    ensures
        names_of(kept(found, names_of(found), wanted)) == kept(
            names_of(found),
            names_of(found),
            wanted,
        ),
{
    crate::azure::allow::lemma_picks(names_of(found), wanted);
    assert(names_of(kept(found, names_of(found), wanted)) =~= kept(
        names_of(found),
        names_of(found),
        wanted,
    ));
}

/// The vaults or registries a command reads.
pub fn narrow<T: Named>(
    found: Vec<T>,
    configured: &Vec<String>,
    only: &Vec<String>,
    kind: &str,
) -> (r: Result<Vec<T>, Failure>)
    ensures
        match r {
            Ok(rows) => narrowed(
                found@,
                names_of(found@),
                texts(configured@),
                texts(only@),
                kind@,
            ) == Ok::<Seq<T>, ReasonView>(rows@),
            Err(failure) => narrowed(
                found@,
                names_of(found@),
                texts(configured@),
                texts(only@),
                kind@,
            ) == Err::<Seq<T>, ReasonView>(failure@),
        },
{
    proof {
        lemma_names_kept(found@, texts(configured@));
    }
    let unknown = missing(&found, only);
    let reachable = allowed(found, configured);
    let gone = missing(&reachable, only);
    let names = list_names(&reachable);
    proof {
        assert(texts(gone@).len() == gone@.len());
    }
    if let Some(name) = find_beyond(&gone, &unknown) {
        let (list, flag) = allowlist(kind);
        let mut text = name.clone();
        text.push_str(" is left out by [azure].");
        text.push_str(list);
        text.push_str(" / ");
        text.push_str(flag);
        text.push_str(" (allowed: ");
        text.push_str(join(&names, ", ").as_str());
        text.push_str(")");
        return Err(Failure::arguments(text));
    }
    if gone.len() > 0 {
        let mut text = "no ".to_owned();
        text.push_str(kind);
        text.push_str(" called ");
        text.push_str(join(&gone, ", ").as_str());
        if reachable.len() == 0 {
            text.push_str("; the login can reach no ");
            text.push_str(kind);
        } else {
            text.push_str("; the login can reach ");
            text.push_str(join(&names, ", ").as_str());
        }
        return Err(Failure::arguments(text));
    }
    Ok(allowed(reachable, only))
}

/// What was narrowed says what was narrowed of what was found said.
pub proof fn lemma_narrowed_views<T: View>(
    found: Seq<T>,
    names: Seq<Seq<char>>,
    configured: Seq<Seq<char>>,
    only: Seq<Seq<char>>,
    kind: Seq<char>,
)
    requires
        found.len() == names.len(),
    ensures
        narrowed(views(found), names, configured, only, kind) == match narrowed(
            found,
            names,
            configured,
            only,
            kind,
        ) {
            Ok(rows) => Ok::<Seq<T::V>, ReasonView>(views(rows)),
            Err(reason) => Err::<Seq<T::V>, ReasonView>(reason),
        },
{
    lemma_kept_views(found, names, configured);
    let reachable = kept(found, names, configured);
    let reachable_names = kept(names, names, configured);
    assert(reachable.len() == reachable_names.len());
    lemma_kept_views(reachable, reachable_names, only);
}

/// Why a command has nothing to read.
pub open spec fn nothing_reachable(kind: Seq<char>, configured: Seq<Seq<char>>) -> ReasonView {
    ReasonView::arguments(
        if configured.len() == 0 {
            "the login can reach no "@ + list_text(kind)
        } else {
            "the login can reach none of [azure]."@ + list_text(kind) + " / "@ + flag_text(kind)
                + " ("@ + joined(configured, ", "@) + ")"@
        },
    )
}

/// Why a command has nothing to read: the login reaches none at all, or none of
/// the ones the allowlist names.
#[must_use]
pub fn none_reachable(kind: &str, configured: &Vec<String>) -> (r: Failure)
    ensures
        r@ == nothing_reachable(kind@, texts(configured@)),
{
    proof {
        assert(texts(configured@).len() == configured@.len());
    }
    let (list, flag) = allowlist(kind);
    if configured.len() == 0 {
        let mut text = "the login can reach no ".to_owned();
        text.push_str(list);
        return Failure::arguments(text);
    }
    let mut text = "the login can reach none of [azure].".to_owned();
    text.push_str(list);
    text.push_str(" / ");
    text.push_str(flag);
    text.push_str(" (");
    text.push_str(join(configured, ", ").as_str());
    text.push_str(")");
    Failure::arguments(text)
}

/// What to exit with where some reads failed.
pub open spec fn some_failed(failed: Seq<Seq<char>>) -> Option<ReasonView> {
    if failed.len() == 0 {
        None
    } else {
        Some(ReasonView::failed(joined(failed, "; "@)))
    }
}

/// What a listing that gave its rows exits with: a read that failed is the exit
/// code, however many rows the others answered with.
#[must_use]
pub fn partial(failed: &Vec<String>) -> (r: Option<Failure>)
    ensures
        match r {
            Some(failure) => some_failed(texts(failed@)) == Some(failure@),
            None => some_failed(texts(failed@)) is None,
        },
{
    proof {
        assert(texts(failed@).len() == failed@.len());
    }
    if failed.len() == 0 {
        None
    } else {
        Some(Failure::failed(join(failed, "; ")))
    }
}

// ---------------------------------------------------------------------------
// Which rows
// ---------------------------------------------------------------------------

/// The rows a query leaves.
pub open spec fn secrets_shown(
    rows: Seq<SecretRowView>,
    query: QueryView,
    now: Timestamp,
) -> Seq<SecretRowView>
    decreases rows.len(),
{
    if rows.len() == 0 {
        Seq::empty()
    } else {
        let before = secrets_shown(rows.drop_last(), query, now);
        let row = rows.last();
        if answers_all(row, query.fields, now) && mentions_all(searched(row), query.words) {
            before.push(row)
        } else {
            before
        }
    }
}

/// The rows a query leaves.
pub open spec fn repositories_shown(
    rows: Seq<RepositoryView>,
    query: QueryView,
    now: Timestamp,
) -> Seq<RepositoryView>
    decreases rows.len(),
{
    if rows.len() == 0 {
        Seq::empty()
    } else {
        let before = repositories_shown(rows.drop_last(), query, now);
        let row = rows.last();
        if repository_answers(row, query.fields, now) && mentions_all(
            repository_searched(row),
            query.words,
        ) {
            before.push(row)
        } else {
            before
        }
    }
}

/// The rows a query leaves.
#[must_use]
pub fn filter_secrets(rows: Vec<SecretRow>, query: &str, now: Timestamp) -> (r: Vec<SecretRow>)
    ensures
        views(r@) == secrets_shown(views(rows@), QueryView::of(query@, known_keys()), now),
{
    let keys = schema();
    let parsed = Query::parse(query, &keys);
    let ghost all = views(rows@);
    let mut out: Vec<SecretRow> = Vec::new();
    proof {
        assert(views(out@) =~= Seq::<SecretRowView>::empty());
        assert(all.take(0) =~= Seq::<SecretRowView>::empty());
    }
    for row in iter: rows.into_iter()
        invariant
            all == views(iter.seq()),
            parsed@ == QueryView::of(query@, known_keys()),
            views(out@) == secrets_shown(all.take(iter.index() as int), parsed@, now),
    {
        let ghost i = iter.index() as int;
        let ghost item = row@;
        proof {
            assert(all.take(i + 1).drop_last() =~= all.take(i));
            assert(all.take(i + 1).last() == row@);
        }
        if passes(&row, &parsed, now) && all_words_in(haystack(&row).as_str(), &parsed.words) {
            let ghost before = out@;
            out.push(row);
            proof {
                assert(views(out@) =~= views(before).push(item));
            }
        }
    }
    proof {
        assert(all.take(all.len() as int) =~= all);
    }
    out
}

/// The rows a query leaves.
#[must_use]
pub fn filter_repositories(rows: Vec<Repository>, query: &str, now: Timestamp) -> (r: Vec<
    Repository,
>)
    ensures
        views(r@) == repositories_shown(
            views(rows@),
            QueryView::of(query@, repository_keys()),
            now,
        ),
{
    let keys = repository_schema();
    let parsed = Query::parse(query, &keys);
    let ghost all = views(rows@);
    let mut out: Vec<Repository> = Vec::new();
    proof {
        assert(views(out@) =~= Seq::<RepositoryView>::empty());
        assert(all.take(0) =~= Seq::<RepositoryView>::empty());
    }
    for row in iter: rows.into_iter()
        invariant
            all == views(iter.seq()),
            parsed@ == QueryView::of(query@, repository_keys()),
            views(out@) == repositories_shown(all.take(iter.index() as int), parsed@, now),
    {
        let ghost i = iter.index() as int;
        let ghost item = row@;
        proof {
            assert(all.take(i + 1).drop_last() =~= all.take(i));
            assert(all.take(i + 1).last() == row@);
        }
        if repository_passes(&row, &parsed, now) && all_words_in(
            repository_haystack(&row).as_str(),
            &parsed.words,
        ) {
            let ghost before = out@;
            out.push(row);
            proof {
                assert(views(out@) =~= views(before).push(item));
            }
        }
    }
    proof {
        assert(all.take(all.len() as int) =~= all);
    }
    out
}

// ---------------------------------------------------------------------------
// Which one holds it
// ---------------------------------------------------------------------------

/// The first row of that name.
pub open spec fn row_named(rows: Seq<SecretRowView>, name: Seq<char>) -> Option<SecretRowView>
    decreases rows.len(),
{
    if rows.len() == 0 {
        None
    } else if rows[0].name == name {
        Some(rows[0])
    } else {
        row_named(rows.skip(1), name)
    }
}

/// The vaults whose listing has that name, each with its row.
pub open spec fn holders(
    vaults: Seq<VaultView>,
    listings: Seq<Result<Seq<SecretRowView>, FailureView>>,
    name: Seq<char>,
) -> Seq<(VaultView, SecretRowView)>
    decreases listings.len(),
{
    if listings.len() == 0 {
        Seq::empty()
    } else {
        let before = holders(vaults, listings.drop_last(), name);
        match listings.last() {
            Ok(rows) => match row_named(rows, name) {
                Some(row) => before.push((vaults[listings.len() - 1], row)),
                None => before,
            },
            Err(_) => before,
        }
    }
}

/// The registries whose catalog has that name.
pub open spec fn keepers(
    registries: Seq<RegistryView>,
    catalogs: Seq<Result<Seq<Seq<char>>, FailureView>>,
    repo: Seq<char>,
) -> Seq<RegistryView>
    decreases catalogs.len(),
{
    if catalogs.len() == 0 {
        Seq::empty()
    } else {
        let before = keepers(registries, catalogs.drop_last(), repo);
        match catalogs.last() {
            Ok(names) => if names.contains(repo) {
                before.push(registries[catalogs.len() - 1])
            } else {
                before
            },
            Err(_) => before,
        }
    }
}

/// The one that holds a name. A name in more than one is ambiguous, and
/// guessing would be the worst possible answer. With none found, what would
/// not answer cannot be ruled in or out: the failures are the answer rather
/// than a silent "not found".
pub open spec fn the_only<V>(
    holding: Seq<V>,
    holding_names: Seq<Seq<char>>,
    failed: Seq<Seq<char>>,
    searched: Seq<Seq<char>>,
    name: Seq<char>,
    thing: Seq<char>,
    kind: Seq<char>,
) -> Result<V, ReasonView> {
    if holding.len() == 1 {
        Ok(holding[0])
    } else if holding.len() == 0 {
        match some_failed(failed) {
            Some(reason) => Err(reason),
            None => Err(
                ReasonView::failed(
                    "no "@ + thing + " called "@ + name + " in "@ + joined(searched, ", "@),
                ),
            ),
        }
    } else {
        Err(
            ReasonView::arguments(
                name + " is in more than one "@ + kind + " ("@ + joined(holding_names, ", "@)
                    + "); name one with "@ + flag_text(kind),
            ),
        )
    }
}

pub open spec fn holder_names(holding: Seq<(VaultView, SecretRowView)>) -> Seq<Seq<char>> {
    holding.map_values(|held: (VaultView, SecretRowView)| held.0.name)
}

/// Why no one of them is the one.
fn none_or_many(
    count: usize,
    holding: &Vec<String>,
    failed: &Vec<String>,
    searched: &Vec<String>,
    name: &str,
    thing: &str,
    kind: &str,
) -> (r: Failure)
    requires
        count != 1,
    ensures
        forall|held: Seq<int>|
            held.len() == count ==> #[trigger] the_only(
                held,
                texts(holding@),
                texts(failed@),
                texts(searched@),
                name@,
                thing@,
                kind@,
            ) == Err::<int, ReasonView>(r@),
{
    if count == 0 {
        if let Some(failure) = partial(failed) {
            return failure;
        }
        let mut text = "no ".to_owned();
        text.push_str(thing);
        text.push_str(" called ");
        text.push_str(name);
        text.push_str(" in ");
        text.push_str(join(searched, ", ").as_str());
        return Failure::failed(text);
    }
    let (_, flag) = allowlist(kind);
    let mut text = name.to_owned();
    text.push_str(" is in more than one ");
    text.push_str(kind);
    text.push_str(" (");
    text.push_str(join(holding, ", ").as_str());
    text.push_str("); name one with ");
    text.push_str(flag);
    Failure::arguments(text)
}

fn find_row(rows: &Vec<SecretRow>, name: &str) -> (r: Option<SecretRow>)
    ensures
        match r {
            Some(row) => row_named(views(rows@), name@) == Some(row@),
            None => row_named(views(rows@), name@) is None,
        },
{
    let ghost all = views(rows@);
    let mut i: usize = 0;
    proof {
        assert(all.skip(0) =~= all);
    }
    while i < rows.len()
        invariant
            i <= rows@.len(),
            all == views(rows@),
            row_named(all, name@) == row_named(all.skip(i as int), name@),
        decreases rows@.len() - i,
    {
        proof {
            assert(all.skip(i as int)[0] == rows@[i as int]@);
            assert(all.skip(i as int).skip(1) =~= all.skip(i + 1));
        }
        if equal(rows[i].name.as_str(), name) {
            return Some(rows[i].copy());
        }
        i = i + 1;
    }
    None
}

/// What holding pairs say.
pub open spec fn held_said(holding: Seq<(Vault, SecretRow)>) -> Seq<(VaultView, SecretRowView)> {
    holding.map_values(|held: (Vault, SecretRow)| (held.0@, held.1@))
}

/// The failures among some listings.
fn refusals(listings: &Vec<Result<Vec<SecretRow>, crate::azure::failure::Failure>>) -> (r: Vec<
    String,
>)
    ensures
        texts(r@) == refusals_of(listings_said(listings@)),
{
    let ghost all = listings_said(listings@);
    let mut out: Vec<String> = Vec::new();
    let mut i: usize = 0;
    proof {
        assert(texts(out@) =~= Seq::<Seq<char>>::empty());
        assert(all.take(0) =~= Seq::<Result<Seq<SecretRowView>, FailureView>>::empty());
    }
    while i < listings.len()
        invariant
            i <= listings@.len(),
            all == listings_said(listings@),
            texts(out@) == refusals_of(all.take(i as int)),
        decreases listings@.len() - i,
    {
        proof {
            assert(all.take(i + 1).drop_last() =~= all.take(i as int));
            assert(all.take(i + 1).last() == vault::listing_said(listings@[i as int]));
        }
        if let Err(error) = &listings[i] {
            let ghost before = out@;
            out.push(error.text.clone());
            proof {
                assert(texts(out@) =~= texts(before).push(error.text@));
            }
        }
        i = i + 1;
    }
    proof {
        assert(all.take(all.len() as int) =~= all);
    }
    out
}

fn find_holders(
    vaults: &Vec<Vault>,
    listings: &Vec<Result<Vec<SecretRow>, crate::azure::failure::Failure>>,
    name: &str,
) -> (r: Vec<(Vault, SecretRow)>)
    requires
        listings@.len() <= vaults@.len(),
    ensures
        held_said(r@) == holders(views(vaults@), listings_said(listings@), name@),
        r@.len() == holders(views(vaults@), listings_said(listings@), name@).len(),
{
    let ghost all = listings_said(listings@);
    let ghost held = views(vaults@);
    let mut out: Vec<(Vault, SecretRow)> = Vec::new();
    let mut i: usize = 0;
    proof {
        assert(held_said(out@) =~= Seq::<(VaultView, SecretRowView)>::empty());
        assert(all.take(0) =~= Seq::<Result<Seq<SecretRowView>, FailureView>>::empty());
    }
    while i < listings.len()
        invariant
            i <= listings@.len() <= vaults@.len(),
            all == listings_said(listings@),
            held == views(vaults@),
            held_said(out@) == holders(held, all.take(i as int), name@),
        decreases listings@.len() - i,
    {
        proof {
            assert(all.take(i + 1).drop_last() =~= all.take(i as int));
            assert(all.take(i + 1).last() == vault::listing_said(listings@[i as int]));
            assert(held[i as int] == vaults@[i as int]@);
        }
        if let Ok(rows) = &listings[i] {
            if let Some(row) = find_row(rows, name) {
                let ghost before = out@;
                let ghost said = (held[i as int], row@);
                out.push((vaults[i].clone(), row));
                proof {
                    assert(held_said(out@) =~= held_said(before).push(said));
                }
            }
        }
        i = i + 1;
    }
    proof {
        assert(all.take(all.len() as int) =~= all);
        assert(held_said(out@).len() == out@.len());
    }
    out
}

/// What the choice of a vault came to.
pub open spec fn choice_said(result: Result<(Vault, SecretRow), Failure>) -> Result<
    (VaultView, SecretRowView),
    ReasonView,
> {
    match result {
        Ok((vault, row)) => Ok((vault@, row@)),
        Err(failure) => Err(failure@),
    }
}

/// The one vault that holds a secret, out of what each listed.
pub open spec fn vault_chosen(
    vaults: Seq<VaultView>,
    listings: Seq<Result<Seq<SecretRowView>, FailureView>>,
    name: Seq<char>,
) -> Result<(VaultView, SecretRowView), ReasonView> {
    let holding = holders(vaults, listings, name);
    the_only(
        holding,
        holder_names(holding),
        refusals_of(listings),
        crate::azure::graph::vault_names(vaults),
        name,
        "secret"@,
        "vault"@,
    )
}

/// The one vault that holds a secret, out of what each listed.
pub fn choose_vault(
    vaults: &Vec<Vault>,
    listings: &Vec<Result<Vec<SecretRow>, crate::azure::failure::Failure>>,
    name: &str,
) -> (r: Result<(Vault, SecretRow), Failure>)
    requires
        listings@.len() == vaults@.len(),
    ensures
        choice_said(r) == vault_chosen(views(vaults@), listings_said(listings@), name@),
{
    let mut holding = find_holders(vaults, listings, name);
    let ghost held = held_said(holding@);
    if holding.len() == 1 {
        let (vault, row) = holding.remove(0);
        proof {
            assert(held[0] == (vault@, row@));
        }
        return Ok((vault, row));
    }
    let failed = refusals(listings);
    let mut names: Vec<String> = Vec::new();
    let mut i: usize = 0;
    while i < holding.len()
        invariant
            i <= holding@.len(),
            names@.len() == i,
            held == held_said(holding@),
            forall|k: int| 0 <= k < i ==> (#[trigger] names@[k])@ == holding@[k].0.name@,
        decreases holding@.len() - i,
    {
        names.push(holding[i].0.name.clone());
        i = i + 1;
    }
    let searched = list_names(vaults);
    proof {
        assert(texts(names@) =~= holder_names(held));
        assert(names_of(vaults@) =~= crate::azure::graph::vault_names(views(vaults@)));
    }
    let failure = none_or_many(holding.len(), &names, &failed, &searched, name, "secret", "vault");
    proof {
        let places = Seq::new(held.len(), |k: int| k);
        assert(the_only(
            places,
            texts(names@),
            texts(failed@),
            texts(searched@),
            name@,
            "secret"@,
            "vault"@,
        ) == Err::<int, ReasonView>(failure@));
    }
    Err(failure)
}

fn find_keepers(
    registries: &Vec<Registry>,
    catalogs: &Vec<Result<Vec<String>, crate::azure::failure::Failure>>,
    repo: &str,
) -> (r: Vec<Registry>)
    requires
        catalogs@.len() <= registries@.len(),
    ensures
        views(r@) == keepers(views(registries@), catalogs_said(catalogs@), repo@),
{
    let ghost all = catalogs_said(catalogs@);
    let ghost held = views(registries@);
    let mut out: Vec<Registry> = Vec::new();
    let mut i: usize = 0;
    proof {
        assert(views(out@) =~= Seq::<RegistryView>::empty());
        assert(all.take(0) =~= Seq::<Result<Seq<Seq<char>>, FailureView>>::empty());
    }
    while i < catalogs.len()
        invariant
            i <= catalogs@.len() <= registries@.len(),
            all == catalogs_said(catalogs@),
            held == views(registries@),
            views(out@) == keepers(held, all.take(i as int), repo@),
        decreases catalogs@.len() - i,
    {
        proof {
            assert(all.take(i + 1).drop_last() =~= all.take(i as int));
            assert(all.take(i + 1).last() == acr::names_said(catalogs@[i as int]));
            assert(held[i as int] == registries@[i as int]@);
        }
        if let Ok(names) = &catalogs[i] {
            if is_among(names, repo) {
                let ghost before = out@;
                out.push(registries[i].clone());
                proof {
                    assert(views(out@) =~= views(before).push(held[i as int]));
                }
            }
        }
        i = i + 1;
    }
    proof {
        assert(all.take(all.len() as int) =~= all);
    }
    out
}

/// What the choice of a registry came to.
pub open spec fn registry_said(result: Result<Registry, Failure>) -> Result<
    RegistryView,
    ReasonView,
> {
    match result {
        Ok(registry) => Ok(registry@),
        Err(failure) => Err(failure@),
    }
}

/// The one registry that holds a repository, out of what each listed.
pub open spec fn registry_chosen(
    registries: Seq<RegistryView>,
    catalogs: Seq<Result<Seq<Seq<char>>, FailureView>>,
    repo: Seq<char>,
) -> Result<RegistryView, ReasonView> {
    let holding = keepers(registries, catalogs, repo);
    the_only(
        holding,
        crate::azure::graph::registry_names(holding),
        refusals_of(catalogs),
        crate::azure::graph::registry_names(registries),
        repo,
        "repository"@,
        "registry"@,
    )
}

/// The one registry that holds a repository, out of what each listed.
pub fn choose_registry(
    registries: &Vec<Registry>,
    catalogs: &Vec<Result<Vec<String>, crate::azure::failure::Failure>>,
    repo: &str,
) -> (r: Result<Registry, Failure>)
    requires
        catalogs@.len() == registries@.len(),
    ensures
        registry_said(r) == registry_chosen(views(registries@), catalogs_said(catalogs@), repo@),
{
    let mut holding = find_keepers(registries, catalogs, repo);
    let ghost held = views(holding@);
    proof {
        assert(held.len() == holding@.len());
    }
    if holding.len() == 1 {
        let registry = holding.remove(0);
        proof {
            assert(held[0] == registry@);
        }
        return Ok(registry);
    }
    let (_, failed) = gather_catalogs(registries, catalogs);
    let names = list_names(&holding);
    let searched = list_names(registries);
    proof {
        assert(names_of(holding@) =~= crate::azure::graph::registry_names(held));
        assert(names_of(registries@) =~= crate::azure::graph::registry_names(views(registries@)));
    }
    let failure = none_or_many(
        holding.len(),
        &names,
        &failed,
        &searched,
        repo,
        "repository",
        "registry",
    );
    proof {
        let places = Seq::new(held.len(), |k: int| k);
        assert(the_only(
            places,
            texts(names@),
            texts(failed@),
            texts(searched@),
            repo@,
            "repository"@,
            "registry"@,
        ) == Err::<int, ReasonView>(failure@));
    }
    Err(failure)
}

// ---------------------------------------------------------------------------
// The commands
// ---------------------------------------------------------------------------

/// What `secrets` comes to.
pub open spec fn secrets_run(
    client: ClientView,
    context: Context,
    query: Seq<char>,
    only: Seq<Seq<char>>,
    json: bool,
    refresh: bool,
) -> (ClientView, Result<(OutputView, Option<ReasonView>), ReasonView>) {
    let (then, read) = secrets_read(client, context, only, refresh);
    (
        then,
        match read {
            Err(reason) => Err(reason),
            Ok((rows, failed)) => {
                let shown = secrets_shown(
                    rows,
                    QueryView::of(query, known_keys()),
                    context.now,
                );
                Ok(
                    (
                        if json {
                            OutputView::Document(secrets_document(shown))
                        } else {
                            OutputView::Lines(secret_lines(shown, context.now))
                        },
                        some_failed(failed),
                    ),
                )
            },
        },
    )
}

/// `az-tui secrets [QUERY] [--vault NAME]…`
///
/// Every row that answered is given; a vault that would not answer is then the
/// exit code, so a script can tell a whole listing from a partial one.
pub fn secrets<T: TokenSource, H: Transport, C: Clock>(
    client: &mut Client<T, H, C>,
    context: &Context,
    query: &str,
    only: &Vec<String>,
    json: bool,
    refresh: bool,
) -> (r: Result<(Output, Option<Failure>), Failure>)
    ensures
        (final(client)@, listing_said(r)) == secrets_run(
            old(client)@,
            *context,
            query@,
            texts(only@),
            json,
            refresh,
        ),
{
    let (rows, failed) = match read_secrets(client, context, only, refresh) {
        Ok(read) => read,
        Err(failure) => return Err(failure),
    };
    let shown = filter_secrets(rows, query, context.now);
    let output = if json {
        Output::Document(describe_secrets(&shown))
    } else {
        Output::Lines(print_secrets(&shown, context.now))
    };
    Ok((output, partial(&failed)))
}

/// What `repos` comes to.
pub open spec fn repos_run(
    client: ClientView,
    context: Context,
    query: Seq<char>,
    only: Seq<Seq<char>>,
    json: bool,
    refresh: bool,
) -> (ClientView, Result<(OutputView, Option<ReasonView>), ReasonView>) {
    let (then, read) = repositories_read(client, context, only, refresh);
    (
        then,
        match read {
            Err(reason) => Err(reason),
            Ok((rows, failed)) => {
                let shown = repositories_shown(
                    rows,
                    QueryView::of(query, repository_keys()),
                    context.now,
                );
                Ok(
                    (
                        if json {
                            OutputView::Document(repositories_document(shown))
                        } else {
                            OutputView::Lines(repository_lines(shown, context.now))
                        },
                        some_failed(failed),
                    ),
                )
            },
        },
    )
}

/// `az-tui repos [QUERY] [--registry NAME]…`
pub fn repos<T: TokenSource, H: Transport, C: Clock>(
    client: &mut Client<T, H, C>,
    context: &Context,
    query: &str,
    only: &Vec<String>,
    json: bool,
    refresh: bool,
) -> (r: Result<(Output, Option<Failure>), Failure>)
    ensures
        (final(client)@, listing_said(r)) == repos_run(
            old(client)@,
            *context,
            query@,
            texts(only@),
            json,
            refresh,
        ),
{
    let (rows, failed) = match read_repositories(client, context, only, refresh) {
        Ok(read) => read,
        Err(failure) => return Err(failure),
    };
    let shown = filter_repositories(rows, query, context.now);
    let output = if json {
        Output::Document(describe_repositories(&shown))
    } else {
        Output::Lines(print_repositories(&shown, context.now))
    };
    Ok((output, partial(&failed)))
}

/// The flags that one optional name comes to.
pub open spec fn at_most_one(only: Option<Seq<char>>) -> Seq<Seq<char>> {
    match only {
        Some(name) => seq![name],
        None => Seq::empty(),
    }
}

fn one_or_none(only: Option<&str>) -> (r: Vec<String>)
    ensures
        texts(r@) == at_most_one(crate::azure::waits::header_said(only)),
{
    let mut out: Vec<String> = Vec::new();
    if let Some(name) = only {
        out.push(name.to_owned());
        proof {
            assert(texts(out@) =~= seq![name@]);
        }
    } else {
        proof {
            assert(texts(out@) =~= Seq::<Seq<char>>::empty());
        }
    }
    out
}

/// What `secret get` comes to.
pub open spec fn secret_got(
    client: ClientView,
    context: Context,
    name: Seq<char>,
    only: Option<Seq<char>>,
    version: Option<Seq<char>>,
    json: bool,
) -> (ClientView, Result<OutputView, ReasonView>) {
    let (one, inventory) = client.inventory_for(context, false);
    match inventory {
        Err(failure) => (one, Err(ReasonView::of_read(failure))),
        Ok(inventory) => match vaults_for(inventory.vaults, context.azure@, at_most_one(only)) {
            Err(reason) => (one, Err(reason)),
            Ok(vaults) => if vaults.len() == 0 {
                (one, Err(nothing_reachable("vault"@, context.azure@.vaults)))
            } else {
                let (two, listings) = one.vaults_listed(vaults, vaults.len());
                match vault_chosen(vaults, listings, name) {
                    Err(reason) => (two, Err(reason)),
                    Ok((vault, row)) => {
                        let (three, read) = two.value_read(vault, name, version);
                        (
                            three,
                            match read {
                                Err(failure) => Err(ReasonView::of_read(failure)),
                                Ok((value, version)) => Ok(
                                    if json {
                                        OutputView::Compact(
                                            value_document(
                                                vault.name,
                                                name,
                                                version,
                                                row.content_type,
                                                value,
                                            ),
                                        )
                                    } else {
                                        OutputView::Raw(value)
                                    },
                                ),
                            },
                        )
                    },
                }
            },
        },
    }
}

/// `az-tui secret get NAME [--vault NAME] [--version ID]`
///
/// The one command that gives a value.
pub fn secret_get<T: TokenSource, H: Transport, C: Clock>(
    client: &mut Client<T, H, C>,
    context: &Context,
    name: &str,
    only: Option<&str>,
    version: Option<&str>,
    json: bool,
) -> (r: Result<Output, Failure>)
    ensures
        (final(client)@, output_said(r)) == secret_got(
            old(client)@,
            *context,
            name@,
            crate::azure::waits::header_said(only),
            crate::azure::waits::header_said(version),
            json,
        ),
        r is Ok ==> {
            let asked = match version {
                Some(version) => Some(version@),
                None => None,
            };
            let last = final(client)@.requests.last();
            &&& final(client)@.requests.len() > 0
            &&& last.method == Method::Get
            &&& ended(last.url, tail_of(name@, asked))
        },
        r matches Ok(output) ==> !json ==> exists|answer: JsonView|
            #![trigger last_answered(final(client)@, answer)]
            {
                &&& last_answered(final(client)@, answer)
                &&& answer.member("value"@) is Text
                &&& output@ == OutputView::Raw(answer.member("value"@)->Text_0)
            },
{
    proof {
        law_secret_get_reads_the_version_it_is_given(
            old(client)@,
            *context,
            name@,
            crate::azure::waits::header_said(only),
            crate::azure::waits::header_said(version),
            json,
        );
    }
    let found = match inventory(client, context, false) {
        Ok(inventory) => inventory.vaults,
        Err(error) => return Err(Failure::of_read(&error)),
    };
    let vaults = match narrow_vaults(found, context.azure, &one_or_none(only)) {
        Ok(vaults) => vaults,
        Err(failure) => return Err(failure),
    };
    proof {
        assert(views(vaults@).len() == vaults@.len());
    }
    if vaults.len() == 0 {
        return Err(none_reachable("vault", &context.azure.vaults));
    }
    let listings = list_vaults(client, &vaults);
    let (held, row) = match choose_vault(&vaults, &listings, name) {
        Ok(choice) => choice,
        Err(failure) => return Err(failure),
    };
    let (secret, read) = match vault::value(client, &held, name, version) {
        Ok(read) => read,
        Err(error) => return Err(Failure::of_read(&error)),
    };
    // The one place outside the TUI that reads a value out.
    let value = secret.expose();
    if json {
        Ok(
            Output::Compact(
                describe_value(&held, name, read.as_str(), &row.content_type, value),
            ),
        )
    } else {
        Ok(Output::Raw(value.to_owned()))
    }
}

/// What `tags` comes to.
pub open spec fn tags_run(
    client: ClientView,
    context: Context,
    repo: Seq<char>,
    only: Option<Seq<char>>,
    json: bool,
) -> (ClientView, Result<OutputView, ReasonView>) {
    let (one, inventory) = client.inventory_for(context, false);
    match inventory {
        Err(failure) => (one, Err(ReasonView::of_read(failure))),
        Ok(inventory) => match registries_for(
            inventory.registries,
            context.azure@,
            at_most_one(only),
        ) {
            Err(reason) => (one, Err(reason)),
            Ok(registries) => if registries.len() == 0 {
                (one, Err(nothing_reachable("registry"@, context.azure@.registries)))
            } else {
                let (two, catalogs) = one.catalogs_listed(registries, registries.len());
                match registry_chosen(registries, catalogs, repo) {
                    Err(reason) => (two, Err(reason)),
                    Ok(registry) => {
                        let (three, tags) = two.tags_listed(
                            registry,
                            repo,
                            None,
                            Seq::empty(),
                            crate::azure::graph::PAGES as nat,
                        );
                        (
                            three,
                            match tags {
                                Err(failure) => Err(ReasonView::of_read(failure)),
                                Ok(tags) => Ok(
                                    if json {
                                        OutputView::Document(
                                            tags_listed_document(registry, repo, tags),
                                        )
                                    } else {
                                        OutputView::Lines(tag_lines(tags, context.now))
                                    },
                                ),
                            },
                        )
                    },
                }
            },
        },
    }
}

/// `az-tui tags REPO [--registry NAME]`
pub fn tags<T: TokenSource, H: Transport, C: Clock>(
    client: &mut Client<T, H, C>,
    context: &Context,
    repo: &str,
    only: Option<&str>,
    json: bool,
) -> (r: Result<Output, Failure>)
    ensures
        (final(client)@, output_said(r)) == tags_run(
            old(client)@,
            *context,
            repo@,
            crate::azure::waits::header_said(only),
            json,
        ),
{
    let found = match inventory(client, context, false) {
        Ok(inventory) => inventory.registries,
        Err(error) => return Err(Failure::of_read(&error)),
    };
    let registries = match narrow_registries(found, context.azure, &one_or_none(only)) {
        Ok(registries) => registries,
        Err(failure) => return Err(failure),
    };
    proof {
        assert(views(registries@).len() == registries@.len());
    }
    if registries.len() == 0 {
        return Err(none_reachable("registry", &context.azure.registries));
    }
    let catalogs = list_catalogs(client, &registries);
    let held = match choose_registry(&registries, &catalogs, repo) {
        Ok(registry) => registry,
        Err(failure) => return Err(failure),
    };
    let tags = match acr::tags(client, &held, repo) {
        Ok(tags) => tags,
        Err(error) => return Err(Failure::of_read(&error)),
    };
    if json {
        Ok(Output::Document(describe_tags(&held, repo, &tags)))
    } else {
        Ok(Output::Lines(print_tags(&tags, context.now)))
    }
}

// ---------------------------------------------------------------------------
// What the commands promise
// ---------------------------------------------------------------------------

/// `secret get` does not guess: with the name in more than one vault it reads
/// no value, and it is the arguments that were wrong.
pub proof fn law_secret_get_does_not_guess(
    vaults: Seq<VaultView>,
    listings: Seq<Result<Seq<SecretRowView>, FailureView>>,
    name: Seq<char>,
)
    requires
        holders(vaults, listings, name).len() > 1,
    ensures
        vault_chosen(vaults, listings, name) matches Err(reason) && reason.code == BAD_ARGUMENTS,
{
}

/// A name that nothing holds is a read that failed, whoever would not answer.
pub proof fn law_a_name_nothing_holds_is_a_failed_read(
    vaults: Seq<VaultView>,
    listings: Seq<Result<Seq<SecretRowView>, FailureView>>,
    name: Seq<char>,
)
    requires
        holders(vaults, listings, name).len() == 0,
    ensures
        vault_chosen(vaults, listings, name) matches Err(reason) && reason.code == FAILED,
{
}

/// A young snapshot is read instead of Azure: nothing is sent.
pub proof fn law_a_young_snapshot_is_read_instead(
    client: ClientView,
    context: Context,
    query: Seq<char>,
    only: Seq<Seq<char>>,
    json: bool,
)
    requires
        context.on_file(crate::config::SECRETS_TAB@) is Some,
        context.on_file(crate::config::SECRETS_TAB@)->0 is Secrets,
    ensures
        secrets_run(client, context, query, only, json, false).0 == client,
{
}

/// With the cache turned away, or too old, `secrets` never answers from it: a
/// listing asks Resource Graph first.
pub proof fn law_a_refresh_goes_and_looks(
    client: ClientView,
    context: Context,
    query: Seq<char>,
    only: Seq<Seq<char>>,
    json: bool,
)
    ensures
        secrets_run(client, context, query, only, json, true) == secrets_run(
            client,
            Context { cache: None, ..context },
            query,
            only,
            json,
            true,
        ),
{
}

/// An argument error is found before any vault is read: a flag that names no
/// vault the login can reach costs the inventory and nothing more.
pub proof fn law_a_wrong_flag_reads_no_vault(
    client: ClientView,
    context: Context,
    only: Seq<Seq<char>>,
)
    requires
        client.inventory_for(context, true).1 matches Ok(inventory) && vaults_for(
            inventory.vaults,
            context.azure@,
            only,
        ) is Err,
    ensures
        secrets_read(client, context, only, true).0 == client.inventory_for(context, true).0,
        secrets_read(client, context, only, true).1 matches Err(reason) && reason.code
            == BAD_ARGUMENTS,
{
}

} // verus!
