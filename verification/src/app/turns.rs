//! What the Registries tab promises over a read, a fill and a run of turns.

use vstd::prelude::*;

use super::cursor::ListCursor;
use super::listing::{left_by, OrderKey, Searchable};
use super::registries::{
    names, on_file, shown_at, LevelView, RegistriesView, RepositoryTable, RowKey, TableView,
};
use super::screen::Target;
use super::secrets::{elapsed, REST};
use super::shell::ShellView;
use crate::azure::Repository;
use crate::columns::ColumnId;
use crate::filter::QueryView;
use crate::input::{InputView, KeyEvent};
use crate::order::{
    arranged, law_the_order_is_in_order, law_what_is_left_stays_in_order, the_order,
};
use crate::store::AzureStore;
use crate::timestamp::Timestamp;
use crate::worker::RequestView;

verus! {

proof fn lemma_shown_at_finds(
    visible: Seq<usize>,
    rows: Seq<Repository>,
    wanted: (Seq<char>, Seq<char>),
)
    ensures
        0 <= shown_at(visible, rows, wanted) <= visible.len(),
        shown_at(visible, rows, wanted) < visible.len() ==> {
            let at = shown_at(visible, rows, wanted);
            visible[at] < rows.len() && names(rows[visible[at] as int]) == wanted
        },
    decreases visible.len(),
{
    if visible.len() > 0 {
        lemma_shown_at_finds(visible.skip(1), rows, wanted);
    }
}

/// The repositories as the table stands to them.
pub open spec fn table_of<'a>(
    screen: RegistriesView,
    store: &'a AzureStore,
    now: Timestamp,
) -> RepositoryTable<'a> {
    RepositoryTable {
        rows: &store.repositories,
        by: screen.repositories.sort,
        descending: screen.repositories.descending,
        now,
    }
}

/// What the order of the repositories is worked out from.
pub open spec fn order_key(screen: RegistriesView, store: AzureStore) -> OrderKey {
    (screen.repositories.sort, screen.repositories.descending, store.repositories.len())
}

/// Where a cursor ends over so many rows when the row it was on is not shown.
pub open spec fn nearest_index(index: usize, count: nat) -> int {
    if count == 0 {
        0
    } else if index > count - 1 {
        count - 1
    } else {
        index as int
    }
}

proof fn lemma_clamped_twice(cursor: ListCursor, count: usize)
    ensures
        cursor.clamped(count).clamped(count).index == nearest_index(cursor.index, count as nat),
        cursor.clamped(count).index == nearest_index(cursor.index, count as nat),
{
}

/// After a read an open repository stays open exactly while it is on file, and
/// the cursor is back on the repository it was on if that is shown; if not, it
/// is on the row that is nearest to where it was.
pub proof fn law_a_read_keeps_the_repository_and_the_cursor(
    screen: RegistriesView,
    store: AzureStore,
    was: Option<(Seq<char>, Seq<char>)>,
    now: Timestamp,
)
    requires
        screen.spoiled().kept(store, was, now).rows.visible.len() <= usize::MAX,
    ensures
        ({
            let then = screen.spoiled().kept(store, was, now);
            let shown = was matches Some(wanted) && shown_at(
                then.rows.visible,
                store.repositories@,
                wanted,
            ) < then.rows.visible.len();
            &&& then.level == match screen.level {
                LevelView::Tags { registry, repo } if on_file(store, registry, repo) =>
                    screen.level,
                _ => LevelView::Repositories,
            }
            &&& shown ==> then.identity(store) == was
            &&& !shown ==> then.repositories.cursor.index == nearest_index(
                screen.repositories.cursor.index,
                then.rows.visible.len(),
            )
        }),
{
    let then = screen.spoiled().kept(store, was, now);
    let visible = then.rows.visible;
    lemma_clamped_twice(screen.repositories.cursor, visible.len() as usize);
    if let Some(wanted) = was {
        lemma_shown_at_finds(visible, store.repositories@, wanted);
    }
}

/// Whether the rows were last looked at with a store: every text that is
/// searched is that store's.
pub open spec fn looked_at(screen: RegistriesView, store: AzureStore, now: Timestamp) -> bool {
    let table = table_of(screen, &store, now);
    let key = order_key(screen, store);
    &&& screen.rows.settled(&table, key, screen.repositories.input.text)
    &&& screen.rows.haystacks == Seq::new(key.2 as nat, |at: int| table.searched(at))
}

/// Whether two stores hold the same repositories in the same places, whatever
/// is known of each.
pub open spec fn same_names(a: AzureStore, b: AzureStore) -> bool {
    &&& a.repositories@.len() == b.repositories@.len()
    &&& forall|i: int|
        0 <= i < a.repositories@.len() ==> names(#[trigger] a.repositories@[i]) == names(
            b.repositories@[i],
        )
}

proof fn lemma_same_searched(
    screen: RegistriesView,
    a: AzureStore,
    b: AzureStore,
    before: Timestamp,
    now: Timestamp,
)
    requires
        same_names(a, b),
    ensures
        Seq::new(
            a.repositories.len() as nat,
            |at: int| table_of(screen, &a, before).searched(at),
        ) =~= Seq::new(
            b.repositories.len() as nat,
            |at: int| table_of(screen, &b, now).searched(at),
        ),
{
    let first = table_of(screen, &a, before);
    let second = table_of(screen, &b, now);
    assert forall|at: int| 0 <= at < a.repositories@.len() implies #[trigger] first.searched(at)
        == second.searched(at) by {
        assert(names(a.repositories@[at]) == names(b.repositories@[at]));
    }
}

/// After repositories have been filled in, the next look puts the rows in the
/// order of what they now say, though neither the sort nor the query nor their
/// number has moved, and the cursor stays on its repository while that is
/// shown.
pub proof fn law_a_fill_puts_the_rows_in_order_again(
    screen: RegistriesView,
    a: AzureStore,
    b: AzureStore,
    before: Timestamp,
    now: Timestamp,
)
    requires
        looked_at(screen, a, before),
        same_names(a, b),
        (RegistriesView { filled: true, ..screen }).refiltered(b, now).rows.visible.len()
            <= usize::MAX,
    ensures
        ({
            let then = (RegistriesView { filled: true, ..screen }).refiltered(b, now);
            let table = table_of(screen, &b, now);
            &&& then.rows.settled(&table, order_key(screen, b), screen.repositories.input.text)
            &&& arranged(&table, then.rows.visible)
            &&& !then.filled
            &&& (screen.identity(a) matches Some(held) && shown_at(
                then.rows.visible,
                b.repositories@,
                held,
            ) < then.rows.visible.len()) ==> then.identity(b) == screen.identity(a)
        }),
{
    let filled = RegistriesView { filled: true, ..screen };
    let then = filled.refiltered(b, now);
    let table = table_of(screen, &b, now);
    let key = order_key(screen, b);
    let count = b.repositories@.len();
    lemma_same_searched(screen, a, b, before, now);
    let texts = Seq::new(key.2 as nat, |at: int| table.searched(at));
    assert(screen.rows.haystacks =~= texts);
    let query = QueryView::of(screen.repositories.input.text, table.filter_keys());
    let keep = |at: usize| at < key.2 && left_by(&table, texts, query, at);
    assert(b.repositories.len() == count);
    law_the_order_is_in_order(&table, count);
    law_what_is_left_stays_in_order(&table, the_order(&table, count as int), keep);
    assert(then.rows.visible == the_order(&table, count as int).filter(keep));
    assert(filled.identity(b) == screen.identity(a));
    if let Some(held) = screen.identity(a) {
        lemma_shown_at_finds(then.rows.visible, b.repositories@, held);
    }
}

// ---------------------------------------------------------------------------
// A run of turns
// ---------------------------------------------------------------------------

/// Something done to the tab.
pub enum Deed {
    Tick(AzureStore, u64),
    Key(ShellView, AzureStore, KeyEvent),
    Click(Target),
    Wheel(Option<Target>, int),
    Look(AzureStore, Timestamp),
    Keep(AzureStore, Option<(Seq<char>, Seq<char>)>, Timestamp),
    Typed(InputView),
    Refresh,
    Fill,
    Spoil,
    Width(u16),
    NextSort,
    SortBy(ColumnId),
}

/// What the turns so far came to: the row the last ones saw and since when, and
/// what they asked for since the last refresh.
pub struct Past {
    pub seen: Option<(RowKey, u64)>,
    pub told: Seq<RequestView>,
}

impl RegistriesView {
    /// The tab once something has been done to it, and what that asked for.
    pub open spec fn done(self, deed: Deed) -> (Self, Option<RequestView>) {
        match deed {
            Deed::Tick(store, now) => self.ticked(store, now),
            Deed::Key(shell, store, key) => (self.pressed(shell, store, key).0, None),
            Deed::Click(target) => (self.clicked(target), None),
            Deed::Wheel(target, delta) => (self.wheeled(target, delta), None),
            Deed::Look(store, now) => (self.refiltered(store, now), None),
            Deed::Keep(store, was, now) => (self.kept(store, was, now), None),
            Deed::Typed(input) => (
                self.with_table(TableView { input, ..self.table() }),
                None,
            ),
            Deed::Refresh => (self.looked_away(), None),
            Deed::Fill => (RegistriesView { filled: true, ..self }, None),
            Deed::Spoil => (self.spoiled(), None),
            Deed::Width(available) => (RegistriesView { available, ..self }, None),
            Deed::NextSort => (
                self.with_table(self.table().next_sorted(self.available)),
                None,
            ),
            Deed::SortBy(column) => (self.with_table(self.table().sorted_by(column)), None),
        }
    }

    /// The tab after all of some deeds, and what their turns came to. A turn
    /// sees the row under the cursor; one that sees another row than the turn
    /// before starts over, and so does one after tags were opened or closed. A
    /// turn with no row under the cursor counts for nothing.
    pub open spec fn run(self, deeds: Seq<Deed>) -> (Self, Past)
        decreases deeds.len(),
    {
        if deeds.len() == 0 {
            (self, Past { seen: None, told: Seq::empty() })
        } else {
            let (here, past) = self.run(deeds.drop_last());
            let (then, asked) = here.done(deeds.last());
            let seen = match deeds.last() {
                Deed::Tick(store, now) => match here.row_key(store) {
                    None => past.seen,
                    Some(key) => match past.seen {
                        Some((held, since)) if held == key => past.seen,
                        _ => Some((key, now)),
                    },
                },
                _ => if then.level != here.level {
                    None
                } else {
                    past.seen
                },
            };
            let told = match deeds.last() {
                Deed::Refresh => Seq::empty(),
                _ => match asked {
                    Some(request) => past.told.push(request),
                    None => past.told,
                },
            };
            (then, Past { seen, told })
        }
    }
}

/// The row a request is about.
pub open spec fn about(request: RequestView) -> RowKey {
    match request {
        RequestView::Tags { registry, repo } => (registry, repo, Seq::empty()),
        RequestView::Manifest { registry, repo, digest } => (registry, repo, digest),
        _ => (Seq::empty(), Seq::empty(), Seq::empty()),
    }
}

/// What a row of the table on screen is asked for.
pub open spec fn question(level: LevelView, key: RowKey) -> RequestView {
    match level {
        LevelView::Repositories => RequestView::Tags { registry: key.0, repo: key.1 },
        LevelView::Tags { .. } => RequestView::Manifest {
            registry: key.0,
            repo: key.1,
            digest: key.2,
        },
    }
}

/// Whether the tab knows what its turns came to.
spec fn remembers(screen: RegistriesView, past: Past) -> bool {
    &&& screen.rested == past.seen
    &&& screen.asked.len() == past.told.len()
    &&& forall|i: int|
        0 <= i < past.told.len() ==> {
            &&& (#[trigger] past.told[i]) is Tags || (past.told[i] is Manifest && about(
                past.told[i],
            ).2.len() > 0)
            &&& screen.asked[i] == about(past.told[i])
        }
}

/// Whether a deed left what the turns came to as it was: the row that was seen
/// goes when tags are opened or closed, and otherwise nothing does.
spec fn leaves_the_past(screen: RegistriesView, then: RegistriesView) -> bool {
    &&& then.asked == screen.asked
    &&& then.rested == if then.level != screen.level {
        None
    } else {
        screen.rested
    }
}

proof fn lemma_a_look_leaves_the_past(screen: RegistriesView, store: AzureStore, now: Timestamp)
    ensures
        screen.looked(store, now).asked == screen.asked,
        screen.looked(store, now).rested == screen.rested,
        screen.looked(store, now).level == screen.level,
{
}

proof fn lemma_a_place_leaves_the_past(
    screen: RegistriesView,
    store: AzureStore,
    was: Option<(Seq<char>, Seq<char>)>,
)
    ensures
        leaves_the_past(screen, screen.placed(store, was)),
        !(screen.level is Tags) ==> screen.placed(store, was).level == screen.level,
{
}

proof fn lemma_a_refilter_leaves_the_past(
    screen: RegistriesView,
    store: AzureStore,
    now: Timestamp,
)
    ensures
        leaves_the_past(screen, screen.refiltered(store, now)),
        screen.level is Repositories ==> screen.refiltered(store, now).level == screen.level,
        screen.refiltered(store, now).level == screen.level || screen.refiltered(
            store,
            now,
        ).level is Repositories,
{
    if screen.filled {
        let then = RegistriesView {
            filled: false,
            rows: super::listing::RowsView { ordered_for: None, ..screen.rows },
            ..screen
        };
        lemma_a_look_leaves_the_past(then, store, now);
        lemma_a_place_leaves_the_past(then.looked(store, now), store, screen.identity(store));
    } else {
        lemma_a_look_leaves_the_past(screen, store, now);
    }
}

proof fn lemma_a_key_leaves_the_past(
    screen: RegistriesView,
    shell: ShellView,
    store: AzureStore,
    key: KeyEvent,
)
    ensures
        leaves_the_past(screen, screen.pressed(shell, store, key).0),
{
    assert(leaves_the_past(screen, screen.acted(shell, store, key.code).0));
    assert forall|cursor: ListCursor| leaves_the_past(
        screen,
        #[trigger] screen.with_cursor(cursor),
    ) by {}
    assert forall|table: TableView| leaves_the_past(
        screen,
        #[trigger] screen.with_table(table),
    ) by {}
    assert forall|offset: int| leaves_the_past(
        screen,
        #[trigger] screen.scrolled_to(offset),
    ) by {}
}

proof fn lemma_only_turns_are_remembered(screen: RegistriesView, deed: Deed)
    requires
        !(deed is Tick),
        !(deed is Refresh),
    ensures
        leaves_the_past(screen, screen.done(deed).0),
{
    match deed {
        Deed::Key(shell, store, key) => lemma_a_key_leaves_the_past(screen, shell, store, key),
        Deed::Look(store, now) => lemma_a_refilter_leaves_the_past(screen, store, now),
        Deed::Keep(store, was, now) => {
            lemma_a_refilter_leaves_the_past(screen, store, now);
            lemma_a_place_leaves_the_past(screen.refiltered(store, now), store, was);
        },
        Deed::Click(target) => {
            assert forall|cursor: ListCursor| leaves_the_past(
                screen,
                #[trigger] screen.with_cursor(cursor),
            ) by {}
        },
        _ => {},
    }
}

proof fn lemma_remembers(screen: RegistriesView, deeds: Seq<Deed>)
    requires
        screen.rested is None,
        screen.asked.len() == 0,
    ensures
        remembers(screen.run(deeds).0, screen.run(deeds).1),
    decreases deeds.len(),
{
    if deeds.len() > 0 {
        let before = deeds.drop_last();
        lemma_remembers(screen, before);
        let (here, past) = screen.run(before);
        let deed = deeds.last();
        if !(deed is Tick) && !(deed is Refresh) {
            lemma_only_turns_are_remembered(here, deed);
        }
    }
}

proof fn lemma_asked_and_told(screen: RegistriesView, past: Past, level: LevelView, key: RowKey)
    requires
        remembers(screen, past),
        level is Repositories ==> key.2.len() == 0,
        level is Tags ==> key.2.len() > 0,
    ensures
        screen.asked.contains(key) <==> past.told.contains(question(level, key)),
{
    let request = question(level, key);
    if screen.asked.contains(key) {
        let i = choose|i: int| 0 <= i < screen.asked.len() && screen.asked[i] == key;
        assert(screen.asked[i] == about(past.told[i]));
        assert(past.told[i] == request) by {
            if past.told[i] is Tags {
                assert(key.2.len() == 0);
            }
        }
    }
    if past.told.contains(request) {
        let i = choose|i: int| 0 <= i < past.told.len() && past.told[i] == request;
        assert(screen.asked[i] == about(past.told[i]));
        assert(about(request).2 =~= key.2);
        assert(screen.asked[i] == key);
    }
}

/// Whatever has been done to the tab, a turn asks about the row under the cursor
/// exactly when the turns before it have seen that row for the rest interval,
/// nothing has answered it yet, and no turn since the last refresh has asked. A
/// repository's row is asked for its tags.
pub proof fn law_a_row_is_asked_about_once_it_has_rested(
    screen: RegistriesView,
    deeds: Seq<Deed>,
    store: AzureStore,
    now: u64,
)
    requires
        screen.rested is None,
        screen.asked.len() == 0,
    ensures
        ({
            let (here, past) = screen.run(deeds);
            let asked = here.ticked(store, now).1;
            match here.row_key(store) {
                None => asked is None,
                Some(key) => {
                    let due = {
                        &&& past.seen matches Some((held, since)) && held == key && elapsed(
                            since,
                            now,
                        ) >= REST
                        &&& !here.answered(store, key)
                        &&& !past.told.contains(question(here.level, key))
                    };
                    asked == if due {
                        Some(question(here.level, key))
                    } else {
                        None
                    }
                },
            }
        }),
{
    let (here, past) = screen.run(deeds);
    lemma_remembers(screen, deeds);
    if let Some(key) = here.row_key(store) {
        if !here.answered(store, key) {
            lemma_asked_and_told(here, past, here.level, key);
        }
    }
}

} // verus!
