//! The Registries tab: every repository across every registry as one flat
//! table, and `Enter` to turn that table into one repository's tags.
//!
//! The same shape as the Secrets tab with a second level on top. Each level
//! keeps its own search box, so going down into a repository and coming back
//! out puts each query back the way it was — which is the whole reason the
//! two are separate fields rather than one shared one.

use std::cmp::Ordering;
use vstd::prelude::*;

use super::cursor::{most, ListCursor, ScrollState};
use super::list::{arrow, border, border_text, counted, count_text};
use super::listing::{show_rows, shown_rows, OrderKey, Rows, RowsView, Searchable};
use super::screen::{azure_said, ActionView, AppAction, Target};
use super::secrets::{
    compare_envs, elapsed, env_number, millis_since, pair_said, search_hint, REST,
};
use super::shell::{Focus, Shell, ShellView};
use crate::azure::acr::{digest_reference, digest_text, pull_reference, pull_text};
use crate::azure::{portal_text, portal_url, Repository, RepositoryView, Tag};
use crate::columns::{
    repository_columns, repository_layout, sort_after, tag_columns, tag_layout, ColumnConfig,
    ColumnId, TableLayout,
};
use crate::filter::{contains, keys_of, mentions, Env, Query, When};
use crate::input::{InputView, KeyCode, KeyEvent, TextInput};
use crate::order::{
    compare_counts, compare_stamps, compare_texts, lemma_order_by_cell_total, lemma_total_by,
    lemma_total_then, order_by_cell, picked_in_order, sort_picks, then_order, then_with,
    Arrangement, Cell,
};
use crate::store::AzureStore;
use crate::text::{decimal, equal, known_of, number, usize_of};
use crate::timestamp::{stamp_number, Timestamp};
use crate::worker::{Request, RequestView};

verus! {

/// How many tags the repository pane lists before it says how many more there
/// are. Any more and the pane is a table, which is what `Enter` is for.
pub const TAGS_IN_PANE: usize = 20;

/// The `key:` filters the repository table knows.
pub open spec fn repository_keys() -> Seq<Seq<char>> {
    seq!["env"@, "registry"@, "repo"@, "name"@, "updated"@, "created"@]
}

/// The `key:` filters the repository table knows.
#[must_use]
pub fn repository_schema() -> (r: Vec<&'static str>)
    ensures
        keys_of(r@) == repository_keys(),
{
    let r = vec!["env", "registry", "repo", "name", "updated", "created"];
    proof {
        assert(keys_of(r@) =~= repository_keys());
    }
    r
}

/// The `key:` filters the tag table knows.
pub open spec fn tag_keys() -> Seq<Seq<char>> {
    seq!["tag"@, "name"@, "digest"@, "updated"@, "created"@]
}

/// The `key:` filters the tag table knows.
#[must_use]
pub fn tag_schema() -> (r: Vec<&'static str>)
    ensures
        keys_of(r@) == tag_keys(),
{
    let r = vec!["tag", "name", "digest", "updated", "created"];
    proof {
        assert(keys_of(r@) =~= tag_keys());
    }
    r
}

/// What a repository looks like to the search.
pub open spec fn searched(row: RepositoryView) -> Seq<char> {
    row.registry + " "@ + row.name
}

#[must_use]
pub fn haystack(row: &Repository) -> (r: String)
    ensures
        r@ == searched(row@),
{
    let mut text = row.registry.clone();
    text.push_str(" ");
    text.push_str(row.name.as_str());
    text
}

/// Whether a moment is as long ago as a filter asks. A filter that says
/// nothing yet leaves every row.
pub open spec fn aged_as(value: Seq<char>, stamp: Option<Timestamp>, now: Timestamp) -> bool {
    match When::of(value) {
        Some(when) => when.aged(stamp, now),
        None => true,
    }
}

fn is_aged_as(value: &str, stamp: Option<Timestamp>, now: Timestamp) -> (r: bool)
    ensures
        r == aged_as(value@, stamp, now),
{
    match When::parse(value) {
        Some(when) => when.holds_age(stamp, now),
        None => true,
    }
}

/// Whether a repository answers one `key:value`.
pub open spec fn answers(row: RepositoryView, key: Seq<char>, value: Seq<char>, now: Timestamp) -> bool {
    if key == "env"@ {
        match Env::named_in(value) {
            Some(want) => Env::named_in(row.registry) == Some(want),
            None => true,
        }
    } else if key == "registry"@ {
        mentions(row.registry, value)
    } else if key == "repo"@ || key == "name"@ {
        mentions(row.name, value)
    } else if key == "updated"@ {
        aged_as(value, row.updated, now)
    } else if key == "created"@ {
        aged_as(value, row.created, now)
    } else {
        true
    }
}

fn answers_field(row: &Repository, key: &str, value: &str, now: Timestamp) -> (r: bool)
    ensures
        r == answers(row@, key@, value@, now),
{
    if equal(key, "env") {
        match Env::of(value) {
            Some(want) => match Env::of(row.registry.as_str()) {
                Some(held) => held == want,
                None => false,
            },
            None => true,
        }
    } else if equal(key, "registry") {
        contains(row.registry.as_str(), value)
    } else if equal(key, "repo") || equal(key, "name") {
        contains(row.name.as_str(), value)
    } else if equal(key, "updated") {
        is_aged_as(value, row.updated, now)
    } else if equal(key, "created") {
        is_aged_as(value, row.created, now)
    } else {
        true
    }
}

/// Whether a repository answers every `key:value`.
pub open spec fn answers_all(
    row: RepositoryView,
    fields: Seq<(Seq<char>, Seq<char>)>,
    now: Timestamp,
) -> bool {
    forall|i: int|
        0 <= i < fields.len() ==> answers(row, (#[trigger] fields[i]).0, fields[i].1, now)
}

/// Whether one repository answers every `key:value` in the query.
#[must_use]
pub fn repository_passes(row: &Repository, query: &Query, now: Timestamp) -> (r: bool)
    ensures
        r == answers_all(row@, query@.fields, now),
{
    let mut i: usize = 0;
    while i < query.fields.len()
        invariant
            i <= query.fields@.len(),
            forall|k: int|
                0 <= k < i ==> answers(
                    row@,
                    (#[trigger] query@.fields[k]).0,
                    query@.fields[k].1,
                    now,
                ),
        decreases query.fields@.len() - i,
    {
        let field = &query.fields[i];
        if !answers_field(row, field.0.as_str(), field.1.as_str(), now) {
            proof {
                assert(!answers(
                    row@,
                    query@.fields[i as int].0,
                    query@.fields[i as int].1,
                    now,
                ));
            }
            return false;
        }
        i = i + 1;
    }
    true
}

/// Whether a tag answers one `key:value`.
pub open spec fn tag_answers(tag: Tag, key: Seq<char>, value: Seq<char>, now: Timestamp) -> bool {
    if key == "tag"@ || key == "name"@ {
        mentions(tag.name@, value)
    } else if key == "digest"@ {
        mentions(tag.digest@, value)
    } else if key == "updated"@ {
        aged_as(value, tag.updated, now)
    } else if key == "created"@ {
        aged_as(value, tag.created, now)
    } else {
        true
    }
}

fn tag_answers_field(tag: &Tag, key: &str, value: &str, now: Timestamp) -> (r: bool)
    ensures
        r == tag_answers(*tag, key@, value@, now),
{
    if equal(key, "tag") || equal(key, "name") {
        contains(tag.name.as_str(), value)
    } else if equal(key, "digest") {
        contains(tag.digest.as_str(), value)
    } else if equal(key, "updated") {
        is_aged_as(value, tag.updated, now)
    } else if equal(key, "created") {
        is_aged_as(value, tag.created, now)
    } else {
        true
    }
}

/// Whether a tag answers every `key:value`.
pub open spec fn tag_answers_all(
    tag: Tag,
    fields: Seq<(Seq<char>, Seq<char>)>,
    now: Timestamp,
) -> bool {
    forall|i: int|
        0 <= i < fields.len() ==> tag_answers(tag, (#[trigger] fields[i]).0, fields[i].1, now)
}

/// Whether one tag answers every `key:value` in the query.
#[must_use]
pub fn tag_passes(tag: &Tag, query: &Query, now: Timestamp) -> (r: bool)
    ensures
        r == tag_answers_all(*tag, query@.fields, now),
{
    let mut i: usize = 0;
    while i < query.fields.len()
        invariant
            i <= query.fields@.len(),
            forall|k: int|
                0 <= k < i ==> tag_answers(
                    *tag,
                    (#[trigger] query@.fields[k]).0,
                    query@.fields[k].1,
                    now,
                ),
        decreases query.fields@.len() - i,
    {
        let field = &query.fields[i];
        if !tag_answers_field(tag, field.0.as_str(), field.1.as_str(), now) {
            proof {
                assert(!tag_answers(
                    *tag,
                    query@.fields[i as int].0,
                    query@.fields[i as int].1,
                    now,
                ));
            }
            return false;
        }
        i = i + 1;
    }
    true
}

// ---------------------------------------------------------------------------
// Sorting
// ---------------------------------------------------------------------------

/// What a repository says in one column, for sorting by it.
pub open spec fn repository_cell(row: Repository, by: ColumnId) -> Cell {
    match by {
        ColumnId::Env => Cell::Known(env_number(Env::named_in(row.registry@))),
        ColumnId::Registry => Cell::Letters(Some(row.registry@)),
        ColumnId::Repository => Cell::Letters(Some(row.name@)),
        ColumnId::Tags => Cell::Known(known_of(row.tag_count)),
        ColumnId::Manifests => Cell::Known(known_of(row.manifest_count)),
        ColumnId::Updated => Cell::Known(stamp_number(row.updated)),
        ColumnId::Created => Cell::Known(stamp_number(row.created)),
        _ => Cell::Blank,
    }
}

/// Repositories and the column they are sorted by.
pub struct RepositoryTable<'a> {
    pub rows: &'a Vec<Repository>,
    pub by: ColumnId,
    pub descending: bool,
    pub now: Timestamp,
}

impl<'a> Arrangement for RepositoryTable<'a> {
    open spec fn size(&self) -> int {
        self.rows@.len() as int
    }

    /// By the column, then by name, then by registry.
    open spec fn rank(&self, a: int, b: int) -> Ordering {
        then_order(
            then_order(
                order_by_cell(
                    repository_cell(self.rows@[a], self.by),
                    repository_cell(self.rows@[b], self.by),
                    self.descending,
                ),
                order_by_cell(
                    Cell::Letters(Some(self.rows@[a].name@)),
                    Cell::Letters(Some(self.rows@[b].name@)),
                    false,
                ),
            ),
            order_by_cell(
                Cell::Letters(Some(self.rows@[a].registry@)),
                Cell::Letters(Some(self.rows@[b].registry@)),
                false,
            ),
        )
    }

    proof fn rank_is_total(&self) {
        let turned = |x: Cell, y: Cell| order_by_cell(x, y, self.descending);
        let plain = |x: Cell, y: Cell| order_by_cell(x, y, false);
        let column = |a: int| repository_cell(self.rows@[a], self.by);
        let name = |a: int| Cell::Letters(Some(self.rows@[a].name@));
        let registry = |a: int| Cell::Letters(Some(self.rows@[a].registry@));
        let first = |a: int, b: int| order_by_cell(column(a), column(b), self.descending);
        let second = |a: int, b: int| order_by_cell(name(a), name(b), false);
        let third = |a: int, b: int| order_by_cell(registry(a), registry(b), false);
        let both = |a: int, b: int| then_order(first(a, b), second(a, b));
        lemma_order_by_cell_total(self.descending);
        lemma_order_by_cell_total(false);
        lemma_total_by(turned, column, first);
        lemma_total_by(plain, name, second);
        lemma_total_by(plain, registry, third);
        lemma_total_then(first, second, both);
        lemma_total_then(both, third, |a: int, b: int| self.rank(a, b));
    }

    fn compare_rows(&self, a: usize, b: usize) -> (r: Ordering) {
        let left = &self.rows[a];
        let right = &self.rows[b];
        let ordering = match self.by {
            ColumnId::Env => compare_envs(
                Env::of(left.registry.as_str()),
                Env::of(right.registry.as_str()),
                self.descending,
            ),
            ColumnId::Registry => compare_texts(
                left.registry.as_str(),
                right.registry.as_str(),
                self.descending,
            ),
            ColumnId::Repository => compare_texts(
                left.name.as_str(),
                right.name.as_str(),
                self.descending,
            ),
            ColumnId::Tags => compare_counts(left.tag_count, right.tag_count, self.descending),
            ColumnId::Manifests => compare_counts(
                left.manifest_count,
                right.manifest_count,
                self.descending,
            ),
            ColumnId::Updated => compare_stamps(left.updated, right.updated, self.descending),
            ColumnId::Created => compare_stamps(left.created, right.created, self.descending),
            _ => Ordering::Equal,
        };
        then_with(
            then_with(ordering, compare_texts(left.name.as_str(), right.name.as_str(), false)),
            compare_texts(left.registry.as_str(), right.registry.as_str(), false),
        )
    }
}

impl<'a> Searchable for RepositoryTable<'a> {
    open spec fn searched(&self, at: int) -> Seq<char> {
        searched(self.rows@[at]@)
    }

    open spec fn answers(&self, fields: Seq<(Seq<char>, Seq<char>)>, at: int) -> bool {
        answers_all(self.rows@[at]@, fields, self.now)
    }

    open spec fn filter_keys(&self) -> Seq<Seq<char>> {
        repository_keys()
    }

    fn searched_text(&self, at: usize) -> (r: String) {
        haystack(&self.rows[at])
    }

    fn answers_query(&self, query: &Query, at: usize) -> (r: bool) {
        repository_passes(&self.rows[at], query, self.now)
    }

    fn filter_schema(&self) -> (r: Vec<&'static str>) {
        repository_schema()
    }
}

/// Sorts `indices` into `rows` by one column, then by name, then by registry.
pub fn sort_repositories(
    indices: &mut Vec<usize>,
    rows: &Vec<Repository>,
    by: ColumnId,
    descending: bool,
)
    requires
        forall|i: int|
            0 <= i < old(indices)@.len() ==> usize_of(#[trigger] old(indices)@[i]) < rows@.len(),
    ensures
        final(indices)@ == picked_in_order(
            &(RepositoryTable { rows, by, descending, now: Timestamp { seconds: 0 } }),
            old(indices),
        ),
{
    let table = RepositoryTable { rows, by, descending, now: Timestamp { seconds: 0 } };
    *indices = sort_picks(&table, &*indices);
}

/// What a tag says in one column, for sorting by it.
pub open spec fn tag_cell(tag: Tag, by: ColumnId) -> Cell {
    match by {
        ColumnId::Tag => Cell::Letters(Some(tag.name@)),
        ColumnId::Digest => Cell::Letters(Some(tag.digest@)),
        ColumnId::Updated => Cell::Known(stamp_number(tag.updated)),
        ColumnId::Created => Cell::Known(stamp_number(tag.created)),
        _ => Cell::Blank,
    }
}

/// Tags and the column they are sorted by.
pub struct TagTable<'a> {
    pub tags: &'a Vec<Tag>,
    pub by: ColumnId,
    pub descending: bool,
    pub now: Timestamp,
}

impl<'a> Arrangement for TagTable<'a> {
    open spec fn size(&self) -> int {
        self.tags@.len() as int
    }

    /// By the column, then by name.
    open spec fn rank(&self, a: int, b: int) -> Ordering {
        then_order(
            order_by_cell(
                tag_cell(self.tags@[a], self.by),
                tag_cell(self.tags@[b], self.by),
                self.descending,
            ),
            order_by_cell(
                Cell::Letters(Some(self.tags@[a].name@)),
                Cell::Letters(Some(self.tags@[b].name@)),
                false,
            ),
        )
    }

    proof fn rank_is_total(&self) {
        let turned = |x: Cell, y: Cell| order_by_cell(x, y, self.descending);
        let plain = |x: Cell, y: Cell| order_by_cell(x, y, false);
        let column = |a: int| tag_cell(self.tags@[a], self.by);
        let name = |a: int| Cell::Letters(Some(self.tags@[a].name@));
        let first = |a: int, b: int| order_by_cell(column(a), column(b), self.descending);
        let second = |a: int, b: int| order_by_cell(name(a), name(b), false);
        lemma_order_by_cell_total(self.descending);
        lemma_order_by_cell_total(false);
        lemma_total_by(turned, column, first);
        lemma_total_by(plain, name, second);
        lemma_total_then(first, second, |a: int, b: int| self.rank(a, b));
    }

    fn compare_rows(&self, a: usize, b: usize) -> (r: Ordering) {
        let left = &self.tags[a];
        let right = &self.tags[b];
        let ordering = match self.by {
            ColumnId::Tag => compare_texts(
                left.name.as_str(),
                right.name.as_str(),
                self.descending,
            ),
            ColumnId::Digest => compare_texts(
                left.digest.as_str(),
                right.digest.as_str(),
                self.descending,
            ),
            ColumnId::Updated => compare_stamps(left.updated, right.updated, self.descending),
            ColumnId::Created => compare_stamps(left.created, right.created, self.descending),
            _ => Ordering::Equal,
        };
        then_with(ordering, compare_texts(left.name.as_str(), right.name.as_str(), false))
    }
}

/// What a tag looks like to the search.
pub open spec fn tag_searched(tag: Tag) -> Seq<char> {
    tag.name@ + " "@ + tag.digest@
}

impl<'a> Searchable for TagTable<'a> {
    open spec fn searched(&self, at: int) -> Seq<char> {
        tag_searched(self.tags@[at])
    }

    open spec fn answers(&self, fields: Seq<(Seq<char>, Seq<char>)>, at: int) -> bool {
        tag_answers_all(self.tags@[at], fields, self.now)
    }

    open spec fn filter_keys(&self) -> Seq<Seq<char>> {
        tag_keys()
    }

    fn searched_text(&self, at: usize) -> (r: String) {
        let mut text = self.tags[at].name.clone();
        text.push_str(" ");
        text.push_str(self.tags[at].digest.as_str());
        text
    }

    fn answers_query(&self, query: &Query, at: usize) -> (r: bool) {
        tag_passes(&self.tags[at], query, self.now)
    }

    fn filter_schema(&self) -> (r: Vec<&'static str>) {
        tag_schema()
    }
}

/// Sorts `indices` into `tags` by one column, then by name.
pub fn sort_tags(indices: &mut Vec<usize>, tags: &Vec<Tag>, by: ColumnId, descending: bool)
    requires
        forall|i: int|
            0 <= i < old(indices)@.len() ==> usize_of(#[trigger] old(indices)@[i]) < tags@.len(),
    ensures
        final(indices)@ == picked_in_order(
            &(TagTable { tags, by, descending, now: Timestamp { seconds: 0 } }),
            old(indices),
        ),
{
    let table = TagTable { tags, by, descending, now: Timestamp { seconds: 0 } };
    *indices = sort_picks(&table, &*indices);
}

// ---------------------------------------------------------------------------
// The screen
// ---------------------------------------------------------------------------

/// Which of the two tables the tab is showing.
pub enum LevelView {
    Repositories,
    Tags { registry: Seq<char>, repo: Seq<char> },
}

/// Which of the two tables the tab is showing.
#[derive(Debug, PartialEq, Eq)]
pub enum Level {
    Repositories,
    /// One repository's tags. The registry and the repository are held here
    /// rather than read off the cursor, so a refresh that moves the rows
    /// underneath cannot change which repository is open.
    Tags { registry: String, repo: String },
}

impl View for Level {
    type V = LevelView;

    open spec fn view(&self) -> LevelView {
        match self {
            Level::Repositories => LevelView::Repositories,
            Level::Tags { registry, repo } => LevelView::Tags { registry: registry@, repo: repo@ },
        }
    }
}

impl Level {
    fn copied(&self) -> (r: Self)
        ensures
            r@ == self@,
    {
        match self {
            Level::Repositories => Level::Repositories,
            Level::Tags { registry, repo } => Level::Tags {
                registry: registry.clone(),
                repo: repo.clone(),
            },
        }
    }

    /// Whether it is the same table.
    fn is(&self, other: &Level) -> (r: bool)
        ensures
            r == (self@ == other@),
    {
        match (self, other) {
            (Level::Repositories, Level::Repositories) => true,
            (Level::Tags { registry, repo }, Level::Tags { registry: r, repo: p }) => equal(
                registry.as_str(),
                r.as_str(),
            ) && equal(repo.as_str(), p.as_str()),
            _ => false,
        }
    }
}

/// One of the two tables.
pub struct TableView {
    pub cursor: ListCursor,
    pub input: InputView,
    pub layout: Seq<ColumnConfig>,
    pub sort: ColumnId,
    pub descending: bool,
}

impl TableView {
    pub open spec fn opening(layout: Seq<ColumnConfig>, sort: ColumnId) -> Self {
        TableView {
            cursor: ListCursor::at_rest(),
            input: InputView::empty(),
            layout,
            sort,
            descending: true,
        }
    }

    pub open spec fn next_sorted(self, available: u16) -> Self {
        match sort_after(self.layout, self.sort, available) {
            Some(next) => TableView { sort: next, descending: false, ..self },
            None => self,
        }
    }

    /// Sorted as a click on a header asks. The default column opens
    /// descending, so on it a click simply turns the sort over.
    pub open spec fn sorted_by(self, column: ColumnId) -> Self {
        if self.sort == column {
            if self.descending && column != ColumnId::Updated {
                TableView { sort: ColumnId::Updated, descending: true, ..self }
            } else {
                TableView { descending: !self.descending, ..self }
            }
        } else {
            TableView { sort: column, descending: false, ..self }
        }
    }
}

/// One of the two tables: its cursor, its box, its columns and its sort.
pub struct Table {
    pub cursor: ListCursor,
    pub input: TextInput,
    pub layout: TableLayout,
    pub sort: ColumnId,
    pub descending: bool,
}

impl View for Table {
    type V = TableView;

    open spec fn view(&self) -> TableView {
        TableView {
            cursor: self.cursor,
            input: self.input@,
            layout: self.layout.columns@,
            sort: self.sort,
            descending: self.descending,
        }
    }
}

impl Table {
    fn new(columns: Vec<ColumnConfig>, sort: ColumnId) -> (r: Self)
        ensures
            r@ == TableView::opening(columns@, sort),
    {
        Table {
            cursor: ListCursor::default(),
            input: TextInput::default(),
            layout: TableLayout { columns },
            sort,
            // Newest first: what changed last is what anybody is looking for.
            descending: true,
        }
    }

    fn next_sort(&mut self, available: u16)
        ensures
            final(self)@ == old(self)@.next_sorted(available),
    {
        if let Some(next) = self.layout.next_sort(self.sort, available) {
            self.sort = next;
            self.descending = false;
        }
    }

    fn sort_by(&mut self, column: ColumnId)
        ensures
            final(self)@ == old(self)@.sorted_by(column),
    {
        if self.sort == column {
            if self.descending && column != ColumnId::Updated {
                self.sort = ColumnId::Updated;
                self.descending = true;
            } else {
                self.descending = !self.descending;
            }
        } else {
            self.sort = column;
            self.descending = false;
        }
    }
}

/// A row of either table: its registry, its repository, and the digest where
/// it is a tag.
pub type RowKey = (Seq<char>, Seq<char>, Seq<char>);

/// What the Registries tab holds.
pub struct RegistriesView {
    pub level: LevelView,
    pub repositories: TableView,
    pub tags: TableView,
    pub rows: RowsView,
    pub filled: bool,
    pub tag_visible: Seq<usize>,
    pub tag_built_for: Option<(Seq<char>, OrderKey)>,
    pub was: LevelView,
    pub rested: Option<(RowKey, u64)>,
    pub asked: Seq<RowKey>,
    pub details_scroll: ScrollState,
    pub available: u16,
}

/// What a repository is told apart by.
pub open spec fn names(row: Repository) -> (Seq<char>, Seq<char>) {
    (row.registry@, row.name@)
}

/// Where among the shown rows the one of those names is, or how many are
/// shown where it is not among them.
pub open spec fn shown_at(
    visible: Seq<usize>,
    rows: Seq<Repository>,
    wanted: (Seq<char>, Seq<char>),
) -> int
    decreases visible.len(),
{
    if visible.len() == 0 || (visible[0] < rows.len() && names(rows[visible[0] as int]) == wanted) {
        0
    } else {
        1 + shown_at(visible.skip(1), rows, wanted)
    }
}

proof fn lemma_shown_at(
    visible: Seq<usize>,
    rows: Seq<Repository>,
    wanted: (Seq<char>, Seq<char>),
    i: int,
)
    requires
        0 <= i <= visible.len(),
        forall|k: int|
            0 <= k < i ==> !(#[trigger] visible[k] < rows.len() && names(rows[visible[k] as int])
                == wanted),
        i < visible.len() ==> visible[i] < rows.len() && names(rows[visible[i] as int]) == wanted,
    ensures
        shown_at(visible, rows, wanted) == i,
    decreases i,
{
    if i > 0 {
        assert(visible[0] == visible[0]);
        assert forall|k: int| 0 <= k < i - 1 implies !(#[trigger] visible.skip(1)[k] < rows.len()
            && names(rows[visible.skip(1)[k] as int]) == wanted) by {
            assert(visible.skip(1)[k] == visible[k + 1]);
        }
        lemma_shown_at(visible.skip(1), rows, wanted, i - 1);
    }
}

/// Whether a repository is among the rows.
pub open spec fn on_file(store: AzureStore, registry: Seq<char>, repo: Seq<char>) -> bool {
    exists|i: int|
        0 <= i < store.repositories@.len() && names(#[trigger] store.repositories@[i]) == (
            registry,
            repo,
        )
}

/// How many repositories have no counts yet.
pub open spec fn unfilled_count(rows: Seq<Repository>) -> int {
    rows.filter(|row: Repository| row.tag_count is None).len() as int
}

/// What the footer says of the repositories, and of the tags.
pub open spec fn repositories_hint() -> Seq<char> {
    "↑↓/jk move  Enter tags  / search  y copy pull  S sort  r refresh  ? help"@
}

pub open spec fn tags_hint() -> Seq<char> {
    "↑↓/jk move  h back  y copy pull  Y copy digest  S sort  ? help"@
}

/// A reference put on the clipboard, and said.
pub open spec fn copied(text: Seq<char>) -> ActionView {
    ActionView::Copy { text, label: "Copied "@ + text }
}

impl RegistriesView {
    /// The tab as it opens: the repositories, newest first.
    pub open spec fn opening() -> Self {
        RegistriesView {
            level: LevelView::Repositories,
            repositories: TableView::opening(repository_layout(), ColumnId::Updated),
            tags: TableView::opening(tag_layout(), ColumnId::Updated),
            rows: RowsView::empty(),
            filled: false,
            tag_visible: Seq::empty(),
            tag_built_for: None,
            was: LevelView::Repositories,
            rested: None,
            asked: Seq::empty(),
            details_scroll: ScrollState { offset: 0, content: 0, viewport: 0 },
            available: 0,
        }
    }

    /// The table the keys and the cursor belong to.
    pub open spec fn table(self) -> TableView {
        match self.level {
            LevelView::Repositories => self.repositories,
            LevelView::Tags { .. } => self.tags,
        }
    }

    pub open spec fn with_table(self, table: TableView) -> Self {
        match self.level {
            LevelView::Repositories => RegistriesView { repositories: table, ..self },
            LevelView::Tags { .. } => RegistriesView { tags: table, ..self },
        }
    }

    /// How many rows the table on screen shows.
    pub open spec fn count(self) -> nat {
        match self.level {
            LevelView::Repositories => self.rows.visible.len(),
            LevelView::Tags { .. } => self.tag_visible.len(),
        }
    }

    pub open spec fn selected_repository(self, store: AzureStore) -> Option<Repository> {
        let index = self.repositories.cursor.index;
        if index < self.rows.visible.len() {
            let at = self.rows.visible[index as int] as int;
            if at < store.repositories@.len() {
                Some(store.repositories@[at])
            } else {
                None
            }
        } else {
            None
        }
    }

    pub open spec fn identity(self, store: AzureStore) -> Option<(Seq<char>, Seq<char>)> {
        match self.selected_repository(store) {
            Some(row) => Some(names(row)),
            None => None,
        }
    }

    /// What the open repository's tags answered.
    pub open spec fn tags_read(self, store: AzureStore) -> Option<Result<Vec<Tag>, String>> {
        match self.level {
            LevelView::Repositories => None,
            LevelView::Tags { registry, repo } => store.tags_read(registry, repo),
        }
    }

    pub open spec fn selected_tag(self, store: AzureStore) -> Option<Tag> {
        match self.tags_read(store) {
            Some(Ok(tags)) => {
                let index = self.tags.cursor.index;
                if index < self.tag_visible.len() {
                    let at = self.tag_visible[index as int] as int;
                    if at < tags@.len() {
                        Some(tags@[at])
                    } else {
                        None
                    }
                } else {
                    None
                }
            },
            _ => None,
        }
    }

    /// After a look at the repositories.
    pub open spec fn repositories_seen(self, store: AzureStore, now: Timestamp) -> Self {
        let table = RepositoryTable {
            rows: &store.repositories,
            by: self.repositories.sort,
            descending: self.repositories.descending,
            now,
        };
        let key = (
            self.repositories.sort,
            self.repositories.descending,
            store.repositories.len(),
        );
        let text = self.repositories.input.text;
        let rows = self.rows.refreshed(&table, key, text);
        if self.rows.rebuilt(key, text) {
            RegistriesView {
                rows,
                repositories: TableView {
                    cursor: self.repositories.cursor.clamped(rows.visible.len() as usize),
                    ..self.repositories
                },
                ..self
            }
        } else {
            RegistriesView { rows, ..self }
        }
    }

    /// After a look at the open repository's tags.
    pub open spec fn tags_seen(self, store: AzureStore, now: Timestamp) -> Self {
        match self.tags_read(store) {
            Some(Ok(tags)) => {
                let key = (
                    self.tags.input.text,
                    (self.tags.sort, self.tags.descending, tags.len()),
                );
                if self.tag_built_for == Some(key) {
                    self
                } else {
                    let table = TagTable {
                        tags: &tags,
                        by: self.tags.sort,
                        descending: self.tags.descending,
                        now,
                    };
                    let shown = shown_rows(&table, tags.len(), self.tags.input.text);
                    RegistriesView {
                        tag_visible: shown,
                        tag_built_for: Some(key),
                        tags: TableView {
                            cursor: self.tags.cursor.clamped(shown.len() as usize),
                            ..self.tags
                        },
                        ..self
                    }
                }
            },
            _ => RegistriesView { tag_visible: Seq::empty(), tag_built_for: None, ..self },
        }
    }

    pub open spec fn looked(self, store: AzureStore, now: Timestamp) -> Self {
        self.repositories_seen(store, now).tags_seen(store, now)
    }

    /// Back at the repositories.
    pub open spec fn closed(self) -> Self {
        RegistriesView {
            level: LevelView::Repositories,
            details_scroll: self.details_scroll.scrolled_to(0),
            rested: None,
            ..self
        }
    }

    /// Out of a repository that has gone.
    pub open spec fn still_open(self, store: AzureStore) -> Self {
        match self.level {
            LevelView::Tags { registry, repo } if !on_file(store, registry, repo) => self.closed(),
            _ => self,
        }
    }

    /// With the cursor back on the repository it was on, if it is shown.
    pub open spec fn placed(self, store: AzureStore, was: Option<(Seq<char>, Seq<char>)>) -> Self {
        let open = self.still_open(store);
        let count = open.rows.visible.len() as usize;
        let cursor = open.repositories.cursor;
        let settled = match was {
            Some(wanted) => {
                let at = shown_at(open.rows.visible, store.repositories@, wanted);
                if at < open.rows.visible.len() {
                    cursor.focused(at as usize)
                } else {
                    cursor.clamped(count)
                }
            },
            None => cursor.clamped(count),
        };
        RegistriesView {
            repositories: TableView { cursor: settled, ..open.repositories },
            ..open
        }
    }

    /// The tab after a look at its rows. A repository that was filled in
    /// since the last look puts the rows in order again, under a cursor that
    /// stays on its own.
    pub open spec fn refiltered(self, store: AzureStore, now: Timestamp) -> Self {
        if self.filled {
            let was = self.identity(store);
            let then = RegistriesView {
                filled: false,
                rows: RowsView { ordered_for: None, ..self.rows },
                ..self
            };
            then.looked(store, now).placed(store, was)
        } else {
            self.looked(store, now)
        }
    }

    pub open spec fn kept(
        self,
        store: AzureStore,
        was: Option<(Seq<char>, Seq<char>)>,
        now: Timestamp,
    ) -> Self {
        self.refiltered(store, now).placed(store, was)
    }

    /// With everything to be worked out again.
    pub open spec fn spoiled(self) -> Self {
        RegistriesView {
            rows: self.rows.spoiled(),
            tag_built_for: None,
            filled: false,
            ..self
        }
    }

    /// `Enter`: the table becomes that repository's tags.
    pub open spec fn opened(self, store: AzureStore) -> (Self, ActionView) {
        match self.selected_repository(store) {
            None => (self, ActionView::Nothing),
            Some(row) => {
                let opening = LevelView::Tags { registry: row.registry@, repo: row.name@ };
                (
                    RegistriesView {
                        level: opening,
                        was: opening,
                        tags: if self.was != opening {
                            TableView {
                                cursor: self.tags.cursor.topped(),
                                input: InputView::empty(),
                                ..self.tags
                            }
                        } else {
                            self.tags
                        },
                        tag_built_for: None,
                        details_scroll: self.details_scroll.scrolled_to(0),
                        rested: None,
                        ..self
                    },
                    ActionView::Azure(
                        RequestView::Tags { registry: row.registry@, repo: row.name@ },
                    ),
                )
            },
        }
    }

    /// The row under the cursor of the table on screen.
    pub open spec fn row_key(self, store: AzureStore) -> Option<RowKey> {
        match self.level {
            LevelView::Repositories => match self.selected_repository(store) {
                Some(row) => Some((row.registry@, row.name@, Seq::<char>::empty())),
                None => None,
            },
            LevelView::Tags { registry, repo } => match self.selected_tag(store) {
                Some(tag) => Some((registry, repo, tag.digest@)),
                None => None,
            },
        }
    }

    /// Whether what a row would be asked for has already been answered, or
    /// cannot be asked.
    pub open spec fn answered(self, store: AzureStore, key: RowKey) -> bool {
        match self.level {
            LevelView::Repositories => store.tags_read(key.0, key.1) is Some,
            LevelView::Tags { .. } => key.2.len() == 0 || store.manifest_read(key.0, key.1, key.2),
        }
    }

    /// One turn of the clock, and what it asks for.
    pub open spec fn ticked(self, store: AzureStore, now: u64) -> (Self, Option<RequestView>) {
        match self.row_key(store) {
            None => (self, None),
            Some(key) => match self.rested {
                Some((at, since)) if at == key => if elapsed(since, now) < REST || self.answered(
                    store,
                    key,
                ) || self.asked.contains(key) {
                    (self, None)
                } else {
                    (
                        RegistriesView { asked: self.asked.push(key), ..self },
                        Some(
                            match self.level {
                                LevelView::Repositories => RequestView::Tags {
                                    registry: key.0,
                                    repo: key.1,
                                },
                                LevelView::Tags { .. } => RequestView::Manifest {
                                    registry: key.0,
                                    repo: key.1,
                                    digest: key.2,
                                },
                            },
                        ),
                    )
                },
                _ => (RegistriesView { rested: Some((key, now)), ..self }, None),
            },
        }
    }

    /// What the bottom border says.
    pub open spec fn bordered(self, store: AzureStore) -> Seq<char> {
        let table = self.table();
        match self.level {
            LevelView::Repositories => {
                let total = store.repositories@.len() as int;
                let waiting = unfilled_count(store.repositories@);
                if waiting > 0 {
                    counted(self.rows.visible.len() as int, total) + " · filling "@ + decimal(
                        (total - waiting) as nat,
                    ) + "/"@ + decimal(total as nat) + " · "@ + table.sort.label_text() + " "@
                        + arrow(table.descending)
                } else {
                    border(
                        self.rows.visible.len() as int,
                        total,
                        table.sort,
                        table.descending,
                    )
                }
            },
            LevelView::Tags { .. } => {
                let total = match self.tags_read(store) {
                    Some(Ok(tags)) => tags@.len() as int,
                    _ => 0,
                };
                border(self.tag_visible.len() as int, total, table.sort, table.descending)
            },
        }
    }

    pub open spec fn titled(self) -> Seq<char> {
        match self.level {
            LevelView::Repositories => " Repositories "@,
            LevelView::Tags { registry, repo } => " "@ + repo + " · "@ + registry + " "@,
        }
    }

    /// `y` and `Y`.
    pub open spec fn copying(self, store: AzureStore, digest: bool) -> ActionView {
        match self.level {
            LevelView::Repositories => match self.selected_repository(store) {
                None => ActionView::Nothing,
                Some(row) => match store.registry_named(row.registry@) {
                    None => ActionView::Nothing,
                    Some(held) => copied(held.login_server@ + "/"@ + row.name@),
                },
            },
            LevelView::Tags { registry, repo } => match self.selected_tag(store) {
                None => ActionView::Nothing,
                Some(tag) => match store.registry_named(registry) {
                    None => ActionView::Nothing,
                    Some(held) => copied(
                        if digest {
                            digest_text(held.login_server@, repo, tag.digest@)
                        } else {
                            pull_text(held.login_server@, repo, tag.name@)
                        },
                    ),
                },
            },
        }
    }

    /// The registry that `o` opens.
    pub open spec fn registry_here(self, store: AzureStore) -> Option<Seq<char>> {
        match self.level {
            LevelView::Repositories => match self.selected_repository(store) {
                Some(row) => Some(row.registry@),
                None => None,
            },
            LevelView::Tags { registry, .. } => Some(registry),
        }
    }

    pub open spec fn opening_portal(self, shell: ShellView, store: AzureStore) -> (
        ShellView,
        ActionView,
    ) {
        match self.registry_here(store) {
            None => (shell, ActionView::Nothing),
            Some(registry) => match store.registry_named(registry) {
                None => (
                    shell.warning(registry + " is not in the inventory"@),
                    ActionView::Nothing,
                ),
                Some(held) => (shell, ActionView::OpenUrl(portal_text(held.id@))),
            },
        }
    }

    /// The keys that act on the row rather than move to it.
    pub open spec fn acted(self, shell: ShellView, store: AzureStore, code: KeyCode) -> (
        Self,
        ShellView,
        ActionView,
    ) {
        match (code, self.level) {
            (KeyCode::Enter | KeyCode::Char('l'), LevelView::Repositories) => {
                let (then, action) = self.opened(store);
                (then, shell, action)
            },
            (KeyCode::Backspace | KeyCode::Char('h') | KeyCode::Esc, LevelView::Tags { .. }) => (
                self.closed(),
                shell,
                ActionView::Nothing,
            ),
            (KeyCode::Char('y'), _) => (self, shell, self.copying(store, false)),
            (KeyCode::Char('Y'), _) => (self, shell, self.copying(store, true)),
            (KeyCode::Char('o'), _) => {
                let (then, action) = self.opening_portal(shell, store);
                (self, then, action)
            },
            _ => (self, shell, ActionView::Nothing),
        }
    }

    pub open spec fn scrolled_to(self, offset: int) -> Self {
        RegistriesView { details_scroll: self.details_scroll.scrolled_to(offset), ..self }
    }

    /// With the cursor of the table on screen somewhere; the details are back
    /// at their top when that is another row.
    pub open spec fn with_cursor(self, cursor: ListCursor) -> Self {
        let then = self.with_table(TableView { cursor, ..self.table() });
        if cursor.index == self.table().cursor.index {
            then
        } else {
            then.scrolled_to(0)
        }
    }

    /// One key the shell did not take.
    pub open spec fn pressed(self, shell: ShellView, store: AzureStore, key: KeyEvent) -> (
        Self,
        ShellView,
        ActionView,
    ) {
        let offset = self.details_scroll.offset;
        let page = self.details_scroll.page_rows();
        let cursor = self.table().cursor;
        let step = cursor.scroll.step();
        let count = self.count() as usize;
        let then = if shell.focus == Focus::Details {
            match key.code {
                KeyCode::Char('j') | KeyCode::Down => Some(self.scrolled_to(offset + 1)),
                KeyCode::Char('k') | KeyCode::Up => Some(self.scrolled_to(offset - 1)),
                KeyCode::PageDown => Some(self.scrolled_to(offset + page)),
                KeyCode::PageUp => Some(self.scrolled_to(offset - page)),
                KeyCode::Home => Some(self.scrolled_to(0)),
                KeyCode::End => Some(self.scrolled_to(usize::MAX as int)),
                _ => None::<RegistriesView>,
            }
        } else {
            match key.code {
                KeyCode::Char('j') | KeyCode::Down => Some(
                    self.with_cursor(cursor.moved(1, count)),
                ),
                KeyCode::Char('k') | KeyCode::Up => Some(
                    self.with_cursor(cursor.moved(-1, count)),
                ),
                KeyCode::PageDown => Some(self.with_cursor(cursor.moved(step, count))),
                KeyCode::PageUp => Some(self.with_cursor(cursor.moved(-step, count))),
                KeyCode::Home => Some(self.with_cursor(cursor.focused(0))),
                KeyCode::End => Some(self.with_cursor(cursor.moved(isize::MAX as int, count))),
                KeyCode::Char('S') => Some(
                    self.with_table(self.table().next_sorted(self.available)),
                ),
                KeyCode::Char('R') => Some(
                    self.with_table(
                        TableView { descending: !self.table().descending, ..self.table() },
                    ),
                ),
                _ => None::<RegistriesView>,
            }
        };
        match then {
            Some(then) => (then, shell, ActionView::Nothing),
            None => self.acted(shell, store, key.code),
        }
    }

    pub open spec fn clicked(self, target: Target) -> Self {
        let last = most(self.count() - 1, 0);
        match target {
            Target::Row(index) => self.with_cursor(
                self.table().cursor.focused(
                    if index < last {
                        index
                    } else {
                        last as usize
                    },
                ),
            ),
            Target::Header(column) => self.with_table(self.table().sorted_by(column)),
            _ => self,
        }
    }

    pub open spec fn wheeled(self, target: Option<Target>, delta: int) -> Self {
        if target == Some(Target::Details) {
            self.scrolled_to(self.details_scroll.offset + delta)
        } else {
            self.with_table(
                TableView {
                    cursor: self.table().cursor.wheeled(delta, self.count() as usize),
                    ..self.table()
                },
            )
        }
    }

    /// `r`, or a tab switch: what has been asked for may be asked for again.
    pub open spec fn looked_away(self) -> Self {
        RegistriesView { asked: Seq::empty(), ..self }
    }
}

/// Three strings, as the characters they spell.
pub open spec fn triples(v: Seq<(String, String, String)>) -> Seq<RowKey> {
    v.map_values(|t: (String, String, String)| (t.0@, t.1@, t.2@))
}

pub open spec fn triple_said(t: Option<(String, String, String)>) -> Option<RowKey> {
    match t {
        Some(t) => Some((t.0@, t.1@, t.2@)),
        None => None,
    }
}

pub open spec fn rested_view(rested: Option<((String, String, String), u64)>) -> Option<
    (RowKey, u64),
> {
    match rested {
        Some((t, since)) => Some(((t.0@, t.1@, t.2@), since)),
        None => None,
    }
}

fn has_triple(list: &Vec<(String, String, String)>, key: &(String, String, String)) -> (r: bool)
    ensures
        r == triples(list@).contains((key.0@, key.1@, key.2@)),
{
    let mut i: usize = 0;
    while i < list.len()
        invariant
            i <= list@.len(),
            forall|k: int| 0 <= k < i ==> #[trigger] triples(list@)[k] != (key.0@, key.1@, key.2@),
        decreases list@.len() - i,
    {
        if equal(list[i].0.as_str(), key.0.as_str()) && equal(list[i].1.as_str(), key.1.as_str())
            && equal(list[i].2.as_str(), key.2.as_str()) {
            proof {
                assert(triples(list@)[i as int] == (key.0@, key.1@, key.2@));
            }
            return true;
        }
        proof {
            assert(triples(list@)[i as int] != (key.0@, key.1@, key.2@));
        }
        i = i + 1;
    }
    false
}

pub struct RegistriesScreen {
    pub level: Level,
    pub repositories: Table,
    pub tags: Table,
    /// Which rows of the store are shown, in order.
    pub rows: Rows,
    /// A fill landed since the rows were last sorted. They sort again once,
    /// at the next `refilter`, rather than once a fill.
    pub filled: bool,
    /// Which tags of the open repository are shown, in order.
    pub tag_visible: Vec<usize>,
    pub tag_built_for: Option<(String, OrderKey)>,
    /// The last repository opened, so coming straight back into it keeps its
    /// cursor and its query while opening a different one does not.
    pub was: Level,
    /// The row under the cursor and when it landed, for the rest interval.
    /// By identity, as `asked` is keyed: a keystroke in the search box puts
    /// another row under the same index.
    pub rested: Option<((String, String, String), u64)>,
    /// What has been asked for this run, so coming back to a row is free.
    pub asked: Vec<(String, String, String)>,
    pub details_scroll: ScrollState,
    pub available: u16,
}

impl View for RegistriesScreen {
    type V = RegistriesView;

    open spec fn view(&self) -> RegistriesView {
        RegistriesView {
            level: self.level@,
            repositories: self.repositories@,
            tags: self.tags@,
            rows: self.rows@,
            filled: self.filled,
            tag_visible: self.tag_visible@,
            tag_built_for: super::listing::built_view(self.tag_built_for),
            was: self.was@,
            rested: rested_view(self.rested),
            asked: triples(self.asked@),
            details_scroll: self.details_scroll,
            available: self.available,
        }
    }
}

impl Default for RegistriesScreen {
    fn default() -> (r: Self)
        ensures
            r@ == RegistriesView::opening(),
    {
        let r = RegistriesScreen {
            level: Level::Repositories,
            repositories: Table::new(repository_columns(), ColumnId::Updated),
            tags: Table::new(tag_columns(), ColumnId::Updated),
            rows: Rows::new(),
            filled: false,
            tag_visible: Vec::new(),
            tag_built_for: None,
            was: Level::Repositories,
            rested: None,
            asked: Vec::new(),
            details_scroll: ScrollState::default(),
            available: 0,
        };
        proof {
            assert(r@.tag_visible =~= Seq::<usize>::empty());
            assert(r@.asked =~= Seq::<RowKey>::empty());
        }
        r
    }
}

impl RegistriesScreen {
    /// The table the keys and the cursor belong to right now.
    #[must_use]
    pub fn table(&self) -> (r: &Table)
        ensures
            r@ == self@.table(),
    {
        match &self.level {
            Level::Repositories => &self.repositories,
            Level::Tags { .. } => &self.tags,
        }
    }

    pub fn table_mut(&mut self) -> (r: &mut Table)
        ensures
            r@ == old(self)@.table(),
            final(self)@ == old(self)@.with_table(final(r)@),
    {
        match &self.level {
            Level::Repositories => &mut self.repositories,
            Level::Tags { .. } => &mut self.tags,
        }
    }

    pub fn input_mut(&mut self) -> (r: &mut TextInput)
        ensures
            r@ == old(self)@.table().input,
            final(self)@ == old(self)@.with_table(
                TableView { input: final(r)@, ..old(self)@.table() },
            ),
    {
        &mut self.table_mut().input
    }

    #[must_use]
    pub fn input(&self) -> (r: &TextInput)
        ensures
            r@ == self@.table().input,
    {
        &self.table().input
    }

    /// Which rows of the store the repository table is showing.
    #[must_use]
    pub fn visible(&self) -> (r: &Vec<usize>)
        ensures
            r@ == self@.rows.visible,
    {
        &self.rows.visible
    }

    /// Which of the open repository's tags the tag table is showing.
    #[must_use]
    pub fn tag_visible(&self) -> (r: &Vec<usize>)
        ensures
            r@ == self@.tag_visible,
    {
        &self.tag_visible
    }

    #[must_use]
    pub fn selected_repository<'a>(&self, store: &'a AzureStore) -> (r: Option<&'a Repository>)
        ensures
            r == match self@.selected_repository(*store) {
                Some(row) => Some(&row),
                None => None::<&Repository>,
            },
    {
        let index: usize = self.repositories.cursor.index;
        if index < self.rows.visible.len() {
            let at: usize = self.rows.visible[index];
            if at < store.repositories.len() {
                return Some(&store.repositories[at]);
            }
        }
        None
    }

    /// The repository the tag level is inside, whichever table has the
    /// cursor.
    #[must_use]
    pub fn open_repository(&self) -> (r: Option<(&str, &str)>)
        ensures
            match self@.level {
                LevelView::Repositories => r is None,
                LevelView::Tags { registry, repo } => r matches Some(open) && open.0@ == registry
                    && open.1@ == repo,
            },
    {
        match &self.level {
            Level::Repositories => None,
            Level::Tags { registry, repo } => Some((registry.as_str(), repo.as_str())),
        }
    }

    /// The open repository's tags, as the store holds them.
    #[must_use]
    pub fn tags_of<'a>(&self, store: &'a AzureStore) -> (r: Option<&'a Result<Vec<Tag>, String>>)
        ensures
            r == match self@.tags_read(*store) {
                Some(result) => Some(&result),
                None => None::<&Result<Vec<Tag>, String>>,
            },
    {
        match &self.level {
            Level::Repositories => None,
            Level::Tags { registry, repo } => store.tags_of(registry.as_str(), repo.as_str()),
        }
    }

    #[must_use]
    pub fn selected_tag<'a>(&self, store: &'a AzureStore) -> (r: Option<&'a Tag>)
        ensures
            r == match self@.selected_tag(*store) {
                Some(tag) => Some(&tag),
                None => None::<&Tag>,
            },
    {
        match self.tags_of(store) {
            Some(Ok(tags)) => {
                let index: usize = self.tags.cursor.index;
                if index < self.tag_visible.len() {
                    let at: usize = self.tag_visible[index];
                    if at < tags.len() {
                        return Some(&tags[at]);
                    }
                }
                None
            },
            _ => None,
        }
    }

    pub fn note_width(&mut self, available: u16)
        ensures
            final(self)@ == (RegistriesView { available, ..old(self)@ }),
    {
        self.available = available;
    }

    pub fn invalidate(&mut self)
        ensures
            final(self)@ == old(self)@.spoiled(),
    {
        self.rows.invalidate();
        self.tag_built_for = None;
        // The caller puts the cursor back itself, from before the rows moved.
        self.filled = false;
    }

    /// One repository filled in. The haystacks hold only the registry and
    /// the name, which a fill does not change, so they stand; the sort and
    /// the filter wait for the next `refilter`.
    pub fn on_fill(&mut self)
        ensures
            final(self)@ == (RegistriesView { filled: true, ..old(self)@ }),
    {
        self.filled = true;
    }

    /// Rebuilds whichever table is on screen. Cheap to call every frame.
    pub fn refilter(&mut self, store: &AzureStore, now: Timestamp)
        ensures
            final(self)@ == old(self)@.refiltered(*store, now),
    {
        // A fill keeps every row at its index, so the cursor's row can still
        // be read off the shown rows as they were before it.
        if self.filled {
            let was = self.cursor_identity(store);
            self.filled = false;
            self.rows.disorder();
            self.look(store, now);
            self.put_back(store, was);
        } else {
            self.look(store, now);
        }
    }

    fn look(&mut self, store: &AzureStore, now: Timestamp)
        ensures
            final(self)@ == old(self)@.looked(*store, now),
    {
        self.refilter_repositories(store, now);
        self.refilter_tags(store, now);
    }

    fn refilter_repositories(&mut self, store: &AzureStore, now: Timestamp)
        ensures
            final(self)@ == old(self)@.repositories_seen(*store, now),
    {
        let table = RepositoryTable {
            rows: &store.repositories,
            by: self.repositories.sort,
            descending: self.repositories.descending,
            now,
        };
        let key: OrderKey = (
            self.repositories.sort,
            self.repositories.descending,
            store.repositories.len(),
        );
        if self.rows.refresh(&table, key, self.repositories.input.text()) {
            self.repositories.cursor.clamp(self.rows.visible.len());
        }
    }

    fn refilter_tags(&mut self, store: &AzureStore, now: Timestamp)
        ensures
            final(self)@ == old(self)@.tags_seen(*store, now),
    {
        match self.tags_of(store) {
            Some(Ok(tags)) => {
                let key: OrderKey = (self.tags.sort, self.tags.descending, tags.len());
                let text = self.tags.input.text();
                let built_already = match &self.tag_built_for {
                    Some((held, held_key)) => equal(held.as_str(), text) && held_key.0 == key.0
                        && held_key.1 == key.1 && held_key.2 == key.2,
                    None => false,
                };
                if built_already {
                    return;
                }
                let table = TagTable {
                    tags,
                    by: self.tags.sort,
                    descending: self.tags.descending,
                    now,
                };
                let shown = show_rows(&table, tags.len(), text);
                self.tag_built_for = Some((text.to_owned(), key));
                self.tag_visible = shown;
                self.tags.cursor.clamp(self.tag_visible.len());
            },
            _ => {
                self.tag_visible.clear();
                self.tag_built_for = None;
                proof {
                    assert(self.tag_visible@ =~= Seq::<usize>::empty());
                }
            },
        }
    }

    /// `Enter`: the table becomes that repository's tags.
    fn open_tags(&mut self, store: &AzureStore) -> (r: AppAction)
        ensures
            (final(self)@, r@) == old(self)@.opened(*store),
    {
        match self.selected_repository(store) {
            None => AppAction::Nothing,
            Some(repository) => {
                let opening = Level::Tags {
                    registry: repository.registry.clone(),
                    repo: repository.name.clone(),
                };
                // Coming back into the repository just left puts the cursor
                // back on the tag it was on; opening a different one starts at
                // the top, because a tag index means nothing across two
                // repositories.
                let elsewhere = !self.was.is(&opening);
                self.level = opening.copied();
                self.was = opening;
                if elsewhere {
                    self.tags.cursor.reset();
                    self.tags.input.clear();
                }
                self.tag_built_for = None;
                self.details_scroll.scroll_to(0);
                self.rested = None;
                AppAction::Azure(
                    Request::Tags {
                        registry: repository.registry.clone(),
                        repo: repository.name.clone(),
                    },
                )
            },
        }
    }

    /// `Backspace` or `h`: back to the repositories, cursor where it was.
    fn close_tags(&mut self)
        ensures
            final(self)@ == old(self)@.closed(),
    {
        self.level = Level::Repositories;
        self.details_scroll.scroll_to(0);
        self.rested = None;
    }

    fn current_key(&self, store: &AzureStore) -> (r: Option<(String, String, String)>)
        ensures
            triple_said(r) == self@.row_key(*store),
    {
        match &self.level {
            Level::Repositories => match self.selected_repository(store) {
                Some(row) => Some((row.registry.clone(), row.name.clone(), String::new())),
                None => None,
            },
            Level::Tags { registry, repo } => match self.selected_tag(store) {
                Some(tag) => Some((registry.clone(), repo.clone(), tag.digest.clone())),
                None => None,
            },
        }
    }

    /// One turn of the clock: what the cursor has settled on long enough to
    /// be worth asking about.
    pub fn tick(&mut self, store: &AzureStore, now: u64) -> (r: Option<Request>)
        ensures
            (final(self)@, azure_said(r)) == old(self)@.ticked(*store, now),
    {
        match self.current_key(store) {
            None => None,
            Some(key) => {
                let waited = match &self.rested {
                    Some((at, since)) => if equal(at.0.as_str(), key.0.as_str()) && equal(
                        at.1.as_str(),
                        key.1.as_str(),
                    ) && equal(at.2.as_str(), key.2.as_str()) {
                        Some(*since)
                    } else {
                        None
                    },
                    None => None,
                };
                match waited {
                    None => {
                        self.rested = Some((key, now));
                        None
                    },
                    Some(since) => {
                        if millis_since(since, now) < REST {
                            return None;
                        }
                        let top = match &self.level {
                            Level::Repositories => true,
                            Level::Tags { .. } => false,
                        };
                        let answered = if top {
                            store.tags_of(key.0.as_str(), key.1.as_str()).is_some()
                        } else {
                            key.2.as_str().is_empty() || store.has_manifest(
                                key.0.as_str(),
                                key.1.as_str(),
                                key.2.as_str(),
                            )
                        };
                        if answered || has_triple(&self.asked, &key) {
                            return None;
                        }
                        let request = if top {
                            Request::Tags { registry: key.0.clone(), repo: key.1.clone() }
                        } else {
                            Request::Manifest {
                                registry: key.0.clone(),
                                repo: key.1.clone(),
                                digest: key.2.clone(),
                            }
                        };
                        let ghost before = triples(self.asked@);
                        let ghost said = (key.0@, key.1@, key.2@);
                        self.asked.push(key);
                        proof {
                            assert(triples(self.asked@) =~= before.push(said));
                        }
                        Some(request)
                    },
                }
            },
        }
    }

    /// Whether the cursor has landed somewhere in the last [`REST`], so the
    /// loop comes back in time to ask about it. It closes when the window
    /// does, rather than leaving the loop awake for the rest of the run.
    #[must_use]
    pub fn is_resting(&self, now: u64) -> (r: bool)
        ensures
            r == (self@.rested matches Some((_, since)) && elapsed(since, now) < REST),
    {
        match &self.rested {
            Some((_, since)) => millis_since(*since, now) < REST,
            None => false,
        }
    }

    /// A refresh, or a tab switch. Nothing here is secret, so only the
    /// once-per-run bookkeeping resets.
    pub fn on_refresh(&mut self)
        ensures
            final(self)@ == old(self)@.looked_away(),
    {
        self.asked.clear();
        proof {
            assert(triples(self.asked@) =~= Seq::<RowKey>::empty());
        }
    }

    /// What the bottom border says.
    #[must_use]
    pub fn status(&self, store: &AzureStore) -> (r: String)
        ensures
            r@ == self@.bordered(*store),
    {
        let table = self.table();
        match &self.level {
            Level::Repositories => {
                let total: usize = store.repositories.len();
                let waiting: usize = count_unfilled(&store.repositories);
                if waiting > 0 {
                    let mut text = count_text(self.rows.visible.len(), total);
                    text.push_str(" · filling ");
                    text.push_str(number((total - waiting) as u64).as_str());
                    text.push_str("/");
                    text.push_str(number(total as u64).as_str());
                    text.push_str(" · ");
                    text.push_str(table.sort.label());
                    text.push_str(" ");
                    text.push_str(
                        if table.descending {
                            "↓"
                        } else {
                            "↑"
                        },
                    );
                    text
                } else {
                    border_text(self.rows.visible.len(), total, table.sort, table.descending)
                }
            },
            Level::Tags { .. } => {
                let total: usize = match self.tags_of(store) {
                    Some(Ok(tags)) => tags.len(),
                    _ => 0,
                };
                border_text(self.tag_visible.len(), total, table.sort, table.descending)
            },
        }
    }

    /// The pane's title: `Repositories`, or the repository and its registry.
    #[must_use]
    pub fn title(&self) -> (r: String)
        ensures
            r@ == self@.titled(),
    {
        match &self.level {
            Level::Repositories => " Repositories ".to_owned(),
            Level::Tags { registry, repo } => {
                let mut text = " ".to_owned();
                text.push_str(repo.as_str());
                text.push_str(" · ");
                text.push_str(registry.as_str());
                text.push_str(" ");
                text
            },
        }
    }

    #[must_use]
    pub fn cursor_identity(&self, store: &AzureStore) -> (r: Option<(String, String)>)
        ensures
            pair_said(r) == self@.identity(*store),
    {
        match self.selected_repository(store) {
            Some(row) => Some((row.registry.clone(), row.name.clone())),
            None => None,
        }
    }

    fn find(&self, store: &AzureStore, registry: &str, name: &str) -> (r: usize)
        ensures
            r == shown_at(self@.rows.visible, store.repositories@, (registry@, name@)),
            r <= self@.rows.visible.len(),
    {
        let visible = &self.rows.visible;
        let ghost wanted = (registry@, name@);
        let mut i: usize = 0;
        while i < visible.len()
            invariant
                i <= visible@.len(),
                visible@ == self@.rows.visible,
                wanted == (registry@, name@),
                forall|k: int|
                    0 <= k < i ==> !(#[trigger] visible@[k] < store.repositories@.len() && names(
                        store.repositories@[visible@[k] as int],
                    ) == wanted),
            decreases visible@.len() - i,
        {
            let at: usize = visible[i];
            if at < store.repositories.len() && equal(
                store.repositories[at].registry.as_str(),
                registry,
            ) && equal(store.repositories[at].name.as_str(), name) {
                proof {
                    lemma_shown_at(visible@, store.repositories@, wanted, i as int);
                }
                return i;
            }
            i = i + 1;
        }
        proof {
            lemma_shown_at(visible@, store.repositories@, wanted, i as int);
        }
        i
    }

    /// Out of a repository that has gone, and the cursor back on the one it
    /// was on.
    fn put_back(&mut self, store: &AzureStore, was: Option<(String, String)>)
        ensures
            final(self)@ == old(self)@.placed(*store, pair_said(was)),
    {
        let gone = match &self.level {
            Level::Tags { registry, repo } => !is_on_file(store, registry.as_str(), repo.as_str()),
            Level::Repositories => false,
        };
        if gone {
            self.close_tags();
        }
        if let Some((registry, name)) = was {
            let at: usize = self.find(store, registry.as_str(), name.as_str());
            if at < self.rows.visible.len() {
                self.repositories.cursor.focus(at);
                return;
            }
        }
        self.repositories.cursor.clamp(self.rows.visible.len());
    }

    /// After a refresh: back onto the same repository, and out of a
    /// repository that has gone.
    pub fn keep_cursor(
        &mut self,
        store: &AzureStore,
        was: Option<(String, String)>,
        now: Timestamp,
    )
        ensures
            final(self)@ == old(self)@.kept(*store, pair_said(was), now),
    {
        self.refilter(store, now);
        self.put_back(store, was);
    }

    pub fn next_sort(&mut self)
        ensures
            final(self)@ == old(self)@.with_table(
                old(self)@.table().next_sorted(old(self)@.available),
            ),
    {
        let available: u16 = self.available;
        self.table_mut().next_sort(available);
    }

    /// A header click: the same column cycles ascending, descending, then
    /// back to the default; a different column starts ascending. The default
    /// column opens descending, so on it a click simply turns the sort over
    /// — otherwise no number of clicks would ever make it ascending.
    pub fn sort_by(&mut self, column: ColumnId)
        ensures
            final(self)@ == old(self)@.with_table(old(self)@.table().sorted_by(column)),
    {
        self.table_mut().sort_by(column);
    }

    #[must_use]
    pub fn count(&self) -> (r: usize)
        ensures
            r == self@.count(),
    {
        match &self.level {
            Level::Repositories => self.rows.visible.len(),
            Level::Tags { .. } => self.tag_visible.len(),
        }
    }

    #[verifier::rlimit(40)]
    pub fn handle_key(&mut self, shell: &mut Shell, store: &AzureStore, key: KeyEvent) -> (r:
        AppAction)
        ensures
            (final(self)@, final(shell)@, r@) == old(self)@.pressed(old(shell)@, *store, key),
    {
        let count: usize = self.count();
        if shell.has_focus(Focus::Details) {
            let page: i32 = self.details_scroll.page_delta();
            match key.code {
                KeyCode::Char('j') | KeyCode::Down => {
                    self.details_scroll.scroll_by(1);
                },
                KeyCode::Char('k') | KeyCode::Up => {
                    self.details_scroll.scroll_by(-1);
                },
                KeyCode::PageDown => {
                    self.details_scroll.scroll_by(page);
                },
                KeyCode::PageUp => {
                    self.details_scroll.scroll_by(-page);
                },
                KeyCode::Home => {
                    self.details_scroll.scroll_to(0);
                },
                KeyCode::End => {
                    self.details_scroll.scroll_to(usize::MAX);
                },
                _ => return self.acting_key(shell, store, key),
            }
            return AppAction::Nothing;
        }
        let before: usize = self.table().cursor.index;
        match key.code {
            KeyCode::Char('j') | KeyCode::Down => self.table_mut().cursor.move_by(1, count),
            KeyCode::Char('k') | KeyCode::Up => self.table_mut().cursor.move_by(-1, count),
            KeyCode::PageDown => self.table_mut().cursor.page(1, count),
            KeyCode::PageUp => self.table_mut().cursor.page(-1, count),
            KeyCode::Home => self.table_mut().cursor.focus(0),
            KeyCode::End => self.table_mut().cursor.move_by(isize::MAX, count),
            KeyCode::Char('S') => {
                self.next_sort();
                return AppAction::Nothing;
            },
            KeyCode::Char('R') => {
                let table = self.table_mut();
                table.descending = !table.descending;
                return AppAction::Nothing;
            },
            _ => return self.acting_key(shell, store, key),
        }
        if self.table().cursor.index != before {
            self.details_scroll.scroll_to(0);
        }
        AppAction::Nothing
    }

    /// The keys that act on the row rather than move to it.
    fn acting_key(&mut self, shell: &mut Shell, store: &AzureStore, key: KeyEvent) -> (r: AppAction)
        ensures
            (final(self)@, final(shell)@, r@) == old(self)@.acted(old(shell)@, *store, key.code),
    {
        let top = match &self.level {
            Level::Repositories => true,
            Level::Tags { .. } => false,
        };
        match key.code {
            KeyCode::Enter | KeyCode::Char('l') => if top {
                self.open_tags(store)
            } else {
                AppAction::Nothing
            },
            // `Esc` reaches here only once there was no query to clear.
            KeyCode::Backspace | KeyCode::Char('h') | KeyCode::Esc => {
                if !top {
                    self.close_tags();
                }
                AppAction::Nothing
            },
            KeyCode::Char('y') => self.copy(store, false),
            KeyCode::Char('Y') => self.copy(store, true),
            KeyCode::Char('o') => self.open_in_portal(shell, store),
            _ => AppAction::Nothing,
        }
    }

    /// `y` and `Y`. At the repository level both copy the reference that
    /// pulls `latest`; at the tag level `y` is the tag and `Y` is the digest,
    /// which is the one that names a build rather than a moving label.
    fn copy(&self, store: &AzureStore, digest: bool) -> (r: AppAction)
        ensures
            r@ == self@.copying(*store, digest),
    {
        match &self.level {
            Level::Repositories => match self.selected_repository(store) {
                None => AppAction::Nothing,
                Some(row) => match store.registry(row.registry.as_str()) {
                    None => AppAction::Nothing,
                    Some(held) => {
                        let mut text = held.login_server.clone();
                        text.push_str("/");
                        text.push_str(row.name.as_str());
                        copy_text(text)
                    },
                },
            },
            Level::Tags { registry, repo } => match self.selected_tag(store) {
                None => AppAction::Nothing,
                Some(tag) => match store.registry(registry.as_str()) {
                    None => AppAction::Nothing,
                    Some(held) => copy_text(
                        if digest {
                            digest_reference(
                                held.login_server.as_str(),
                                repo.as_str(),
                                tag.digest.as_str(),
                            )
                        } else {
                            pull_reference(
                                held.login_server.as_str(),
                                repo.as_str(),
                                tag.name.as_str(),
                            )
                        },
                    ),
                },
            },
        }
    }

    fn open_in_portal(&self, shell: &mut Shell, store: &AzureStore) -> (r: AppAction)
        ensures
            (final(shell)@, r@) == self@.opening_portal(old(shell)@, *store),
    {
        let registry = match &self.level {
            Level::Repositories => match self.selected_repository(store) {
                Some(row) => row.registry.clone(),
                None => return AppAction::Nothing,
            },
            Level::Tags { registry, .. } => registry.clone(),
        };
        match store.registry(registry.as_str()) {
            None => {
                let mut said = registry;
                said.push_str(" is not in the inventory");
                shell.set_error(said.as_str());
                AppAction::Nothing
            },
            Some(held) => AppAction::OpenUrl(portal_url(held.id.as_str())),
        }
    }

    pub fn handle_click(&mut self, target: Target) -> (r: AppAction)
        ensures
            final(self)@ == old(self)@.clicked(target),
            r is Nothing,
    {
        match target {
            Target::Row(index) => {
                let last: usize = self.count().saturating_sub(1);
                let index: usize = if index < last {
                    index
                } else {
                    last
                };
                if index != self.table().cursor.index {
                    self.details_scroll.scroll_to(0);
                }
                self.table_mut().cursor.focus(index);
            },
            Target::Header(column) => self.sort_by(column),
            _ => {},
        }
        AppAction::Nothing
    }

    pub fn handle_wheel(&mut self, target: Option<Target>, delta: i32)
        ensures
            final(self)@ == old(self)@.wheeled(target, delta as int),
    {
        if let Some(Target::Details) = target {
            self.details_scroll.scroll_by(delta);
            return;
        }
        let count: usize = self.count();
        self.table_mut().cursor.wheel(delta, count);
    }

    /// Nothing about a registry is urgent, so the tab wears no badge.
    #[must_use]
    pub fn badge(&self, _store: &AzureStore) -> (r: Option<String>)
        ensures
            r is None,
    {
        None
    }

    #[must_use]
    pub fn footer_hint(&self, shell: &Shell) -> (r: String)
        ensures
            r@ == if shell@.focus == Focus::Search {
                search_hint()
            } else if self@.level is Repositories {
                repositories_hint()
            } else {
                tags_hint()
            },
    {
        if shell.has_focus(Focus::Search) {
            return "Esc/Enter keep the filter  Esc again clears it  Ctrl-U empties the box".to_owned();
        }
        match &self.level {
            Level::Repositories =>
                "↑↓/jk move  Enter tags  / search  y copy pull  S sort  r refresh  ? help".to_owned(),
            Level::Tags { .. } =>
                "↑↓/jk move  h back  y copy pull  Y copy digest  S sort  ? help".to_owned(),
        }
    }
}

fn copy_text(text: String) -> (r: AppAction)
    ensures
        r@ == copied(text@),
{
    let mut label = "Copied ".to_owned();
    label.push_str(text.as_str());
    AppAction::Copy { text, label }
}

fn is_on_file(store: &AzureStore, registry: &str, repo: &str) -> (r: bool)
    ensures
        r == on_file(*store, registry@, repo@),
{
    let mut i: usize = 0;
    while i < store.repositories.len()
        invariant
            i <= store.repositories@.len(),
            forall|k: int|
                0 <= k < i ==> names(#[trigger] store.repositories@[k]) != (registry@, repo@),
        decreases store.repositories@.len() - i,
    {
        let held = &store.repositories[i];
        if equal(held.registry.as_str(), registry) && equal(held.name.as_str(), repo) {
            proof {
                assert(names(store.repositories@[i as int]) == (registry@, repo@));
            }
            return true;
        }
        i = i + 1;
    }
    false
}

fn count_unfilled(rows: &Vec<Repository>) -> (r: usize)
    ensures
        r == unfilled_count(rows@),
        r <= rows@.len(),
{
    let ghost keep = |row: Repository| row.tag_count is None;
    let mut count: usize = 0;
    let mut i: usize = 0;
    proof {
        reveal(Seq::filter);
    }
    while i < rows.len()
        invariant
            i <= rows@.len(),
            count <= i,
            keep == (|row: Repository| row.tag_count is None),
            count == rows@.take(i as int).filter(keep).len(),
        decreases rows@.len() - i,
    {
        proof {
            reveal(Seq::filter);
            assert(rows@.take(i + 1).drop_last() =~= rows@.take(i as int));
        }
        if rows[i].tag_count.is_none() {
            count = count + 1;
        }
        i = i + 1;
    }
    proof {
        assert(rows@.take(i as int) =~= rows@);
    }
    count
}

// ---------------------------------------------------------------------------
// What the tab promises
// ---------------------------------------------------------------------------

/// Going into a repository and coming back out leaves the repositories as
/// they were: their cursor, their query, their sort and what they show.
pub proof fn law_coming_back_finds_the_repositories_as_they_were(
    screen: RegistriesView,
    store: AzureStore,
)
    ensures
        ({
            let back = screen.opened(store).0.closed();
            &&& back.repositories == screen.repositories
            &&& back.rows == screen.rows
        }),
{
}

/// Coming straight back into the repository just left finds its cursor, its
/// query and its sort as they were left.
pub proof fn law_coming_back_in_finds_the_tags_as_they_were(
    screen: RegistriesView,
    store: AzureStore,
)
    requires
        screen.level is Repositories,
    ensures
        ({
            let inside = screen.opened(store).0;
            inside.closed().opened(store).0.tags == inside.tags
        }),
{
}

/// A repository that has gone is not left open.
pub proof fn law_a_repository_that_has_gone_is_closed(
    screen: RegistriesView,
    store: AzureStore,
    was: Option<(Seq<char>, Seq<char>)>,
)
    ensures
        screen.placed(store, was).level matches LevelView::Tags { registry, repo } ==> on_file(
            store,
            registry,
            repo,
        ),
{
}

/// On the default column a click turns the sort over, and two clicks leave it
/// as it was.
pub proof fn law_the_default_column_turns_over(table: TableView)
    requires
        table.sort == ColumnId::Updated,
    ensures
        table.sorted_by(ColumnId::Updated) == (TableView {
            descending: !table.descending,
            ..table
        }),
        table.sorted_by(ColumnId::Updated).sorted_by(ColumnId::Updated) == table,
{
}

/// Three clicks on any other column end at the default, newest first.
pub proof fn law_a_third_click_is_newest_first(table: TableView, column: ColumnId)
    requires
        table.sort != column,
        column != ColumnId::Updated,
    ensures
        table.sorted_by(column).sorted_by(column).sorted_by(column) == (TableView {
            sort: ColumnId::Updated,
            descending: true,
            ..table
        }),
{
}

/// What a row would be asked for is asked for once, and only once the cursor
/// has rested on it.
pub proof fn law_a_row_is_asked_about_once(screen: RegistriesView, store: AzureStore, now: u64)
    ensures
        screen.ticked(store, now).1 is Some ==> {
            let key = screen.row_key(store)->0;
            &&& screen.row_key(store) is Some
            &&& !screen.asked.contains(key)
            &&& screen.ticked(store, now).0.asked.contains(key)
            &&& screen.rested matches Some((at, since)) && at == key && elapsed(since, now) >= REST
        },
{
    if screen.ticked(store, now).1 is Some {
        let key = screen.row_key(store)->0;
        let asked = screen.asked.push(key);
        assert(asked[asked.len() - 1] == key);
    }
}

} // verus!
