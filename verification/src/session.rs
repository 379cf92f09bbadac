//! The layout a run leaves behind for the next one: which tab was open, and
//! each table's sort and columns. Never a query, never a cursor, and nothing a
//! vault or a cluster answered.

use vstd::prelude::*;

use crate::columns::{
    column_at, column_named, law_a_column_is_found_by_its_key, ColumnConfig, ColumnId, TableLayout,
};
use crate::kube::{copy_text, said};
use crate::store::put_at;
use crate::text::{equal, equal_ignoring_case, same};

verus! {

/// One column as the file has it. What the file does not mention keeps its
/// default.
#[derive(Clone, Debug, PartialEq, Eq)]
pub struct SessionColumn {
    pub key: String,
    pub width: Option<u16>,
    pub visible: Option<bool>,
}

pub struct SessionColumnView {
    pub key: Seq<char>,
    pub width: Option<u16>,
    pub visible: Option<bool>,
}

impl View for SessionColumn {
    type V = SessionColumnView;

    open spec fn view(&self) -> SessionColumnView {
        SessionColumnView { key: self.key@, width: self.width, visible: self.visible }
    }
}

pub open spec fn column_views(columns: Seq<SessionColumn>) -> Seq<SessionColumnView> {
    columns.map_values(|column: SessionColumn| column@)
}

/// One tab as the file has it.
#[derive(Clone, Debug, PartialEq, Eq)]
pub struct SessionTab {
    /// The kind a scope tab shows.
    pub kind: Option<String>,
    /// The sorted column's key, and which way.
    pub sort: Option<(String, String)>,
    pub columns: Vec<SessionColumn>,
}

pub struct SessionTabView {
    pub kind: Option<Seq<char>>,
    pub sort: Option<(Seq<char>, Seq<char>)>,
    pub columns: Seq<SessionColumnView>,
}

impl SessionTabView {
    pub open spec fn empty() -> Self {
        SessionTabView { kind: None, sort: None, columns: Seq::empty() }
    }
}

/// What a sort in the file says.
pub open spec fn sort_said(sort: Option<(String, String)>) -> Option<(Seq<char>, Seq<char>)> {
    match sort {
        Some((key, way)) => Some((key@, way@)),
        None => None,
    }
}

impl View for SessionTab {
    type V = SessionTabView;

    open spec fn view(&self) -> SessionTabView {
        SessionTabView {
            kind: said(self.kind),
            sort: sort_said(self.sort),
            columns: column_views(self.columns@),
        }
    }
}

impl Default for SessionTab {
    fn default() -> (r: Self)
        ensures
            r@ == SessionTabView::empty(),
    {
        let r = SessionTab { kind: None, sort: None, columns: Vec::new() };
        proof {
            assert(r@.columns =~= Seq::<SessionColumnView>::empty());
        }
        r
    }
}

/// What a run leaves behind.
#[derive(Clone, Debug, PartialEq, Eq)]
pub struct Session {
    /// The tab that was open, by its key.
    pub tab: Option<String>,
    /// Each tab's layout, by the tab's key. A key stands here once.
    pub tabs: Vec<(String, SessionTab)>,
}

pub struct SessionView {
    pub tab: Option<Seq<char>>,
    pub tabs: Seq<(Seq<char>, SessionTabView)>,
}

pub open spec fn tab_views(tabs: Seq<(String, SessionTab)>) -> Seq<(Seq<char>, SessionTabView)> {
    tabs.map_values(|held: (String, SessionTab)| (held.0@, held.1@))
}

impl View for Session {
    type V = SessionView;

    open spec fn view(&self) -> SessionView {
        SessionView { tab: said(self.tab), tabs: tab_views(self.tabs@) }
    }
}

/// Where a tab's layout stands, or how many there are where it is not among
/// them.
pub open spec fn tab_at(tabs: Seq<(Seq<char>, SessionTabView)>, key: Seq<char>) -> int
    decreases tabs.len(),
{
    if tabs.len() == 0 || tabs[0].0 == key {
        0
    } else {
        1 + tab_at(tabs.skip(1), key)
    }
}

pub proof fn lemma_tab_at(tabs: Seq<(Seq<char>, SessionTabView)>, key: Seq<char>, i: int)
    requires
        0 <= i <= tabs.len(),
        forall|k: int| 0 <= k < i ==> (#[trigger] tabs[k]).0 != key,
        i < tabs.len() ==> tabs[i].0 == key,
    ensures
        tab_at(tabs, key) == i,
    decreases i,
{
    if i > 0 {
        assert(tabs[0].0 != key);
        assert forall|k: int| 0 <= k < i - 1 implies (#[trigger] tabs.skip(1)[k]).0 != key by {
            assert(tabs.skip(1)[k] == tabs[k + 1]);
        }
        lemma_tab_at(tabs.skip(1), key, i - 1);
    }
}

/// Where a layout is found, it is the named tab's, and the first such.
pub proof fn lemma_tab_found(tabs: Seq<(Seq<char>, SessionTabView)>, key: Seq<char>)
    ensures
        0 <= tab_at(tabs, key) <= tabs.len(),
        tab_at(tabs, key) < tabs.len() ==> tabs[tab_at(tabs, key)].0 == key,
        forall|k: int| 0 <= k < tab_at(tabs, key) ==> (#[trigger] tabs[k]).0 != key,
    decreases tabs.len(),
{
    if tabs.len() > 0 && tabs[0].0 != key {
        lemma_tab_found(tabs.skip(1), key);
        let at = tab_at(tabs.skip(1), key);
        assert forall|k: int| 0 <= k < at + 1 implies (#[trigger] tabs[k]).0 != key by {
            if k > 0 {
                assert(tabs.skip(1)[k - 1] == tabs[k]);
            }
        }
    }
}

impl SessionView {
    /// What is on file for a tab.
    pub open spec fn held(self, key: Seq<char>) -> Option<SessionTabView> {
        let at = tab_at(self.tabs, key);
        if at < self.tabs.len() {
            Some(self.tabs[at].1)
        } else {
            None
        }
    }

    /// With a tab's layout put on file.
    pub open spec fn with_tab(self, key: Seq<char>, tab: SessionTabView) -> Self {
        SessionView { tabs: put_at(self.tabs, tab_at(self.tabs, key), (key, tab)), ..self }
    }
}

impl Default for Session {
    fn default() -> (r: Self)
        ensures
            r@ == (SessionView { tab: None, tabs: Seq::empty() }),
    {
        let r = Session { tab: None, tabs: Vec::new() };
        proof {
            assert(r@.tabs =~= Seq::<(Seq<char>, SessionTabView)>::empty());
        }
        r
    }
}

impl Session {
    fn position(&self, key: &str) -> (r: usize)
        ensures
            r == tab_at(self@.tabs, key@),
            r <= self.tabs@.len(),
    {
        let mut i: usize = 0;
        while i < self.tabs.len() && !equal(self.tabs[i].0.as_str(), key)
            invariant
                i <= self.tabs@.len(),
                forall|k: int| 0 <= k < i ==> (#[trigger] self@.tabs[k]).0 != key@,
            decreases self.tabs@.len() - i,
        {
            i = i + 1;
        }
        proof {
            lemma_tab_at(self@.tabs, key@, i as int);
        }
        i
    }

    /// What is on file for a tab.
    #[must_use]
    pub fn get(&self, key: &str) -> (r: Option<&SessionTab>)
        ensures
            match self@.held(key@) {
                Some(tab) => r matches Some(held) && held@ == tab,
                None => r is None,
            },
    {
        let at: usize = self.position(key);
        if at < self.tabs.len() {
            Some(&self.tabs[at].1)
        } else {
            None
        }
    }

    /// The place for a tab's layout: the one on file, or an empty one put
    /// there.
    pub fn tab(&mut self, key: &str) -> (r: &mut SessionTab)
        ensures
            r@ == match old(self)@.held(key@) {
                Some(tab) => tab,
                None => SessionTabView::empty(),
            },
            final(self)@ == old(self)@.with_tab(key@, final(r)@),
    {
        let ghost was = self@.tabs;
        let at: usize = self.position(key);
        proof {
            lemma_tab_found(was, key@);
        }
        if at == self.tabs.len() {
            self.tabs.push((key.to_owned(), SessionTab::default()));
        }
        proof {
            let held = self.tabs@;
            assert forall|tab: SessionTab|
                #[trigger] tab_views(held.update(at as int, (held[at as int].0, tab))) == put_at(
                    was,
                    at as int,
                    (key@, tab@),
                ) by {
                assert(tab_views(held.update(at as int, (held[at as int].0, tab))) =~= put_at(
                    was,
                    at as int,
                    (key@, tab@),
                ));
            }
        }
        &mut self.tabs[at].1
    }
}

// ---------------------------------------------------------------------------
// What another build left in the file
// ---------------------------------------------------------------------------

/// Whether a line of the file is about a key that stands among `lines`.
pub open spec fn has_line(lines: Seq<SessionColumnView>, key: Seq<char>) -> bool {
    exists|i: int| 0 <= i < lines.len() && (#[trigger] lines[i]).key == key
}

/// Whether a line has to be carried over: no column here has its key, and
/// `lines` has none for it either.
pub open spec fn is_carried(lines: Seq<SessionColumnView>, line: SessionColumnView) -> bool {
    column_named(line.key) is None && !has_line(lines, line.key)
}

impl SessionTabView {
    /// With the columns of `older` that no column here has the key of.
    pub open spec fn carrying(self, older: Self) -> Self {
        SessionTabView {
            columns: self.columns + older.columns.filter(
                |line: SessionColumnView| is_carried(self.columns, line),
            ),
            ..self
        }
    }
}

impl SessionView {
    /// With what `older` has and this does not: on each tab the columns that
    /// no column here has the key of, and the tabs that are not here.
    pub open spec fn carrying(self, older: Self) -> Self {
        SessionView {
            tabs: self.tabs.map_values(
                |held: (Seq<char>, SessionTabView)|
                    match older.held(held.0) {
                        Some(tab) => (held.0, held.1.carrying(tab)),
                        None => held,
                    },
            ) + older.tabs.filter(
                |held: (Seq<char>, SessionTabView)| self.held(held.0) is None,
            ),
            ..self
        }
    }
}

impl SessionColumn {
    fn copy(&self) -> (r: Self)
        ensures
            r@ == self@,
    {
        SessionColumn { key: self.key.clone(), width: self.width, visible: self.visible }
    }
}

fn has_key(lines: &Vec<SessionColumn>, key: &str) -> (r: bool)
    ensures
        r == has_line(column_views(lines@), key@),
{
    let ghost all = column_views(lines@);
    let mut i: usize = 0;
    while i < lines.len()
        invariant
            i <= lines@.len(),
            all == column_views(lines@),
            forall|k: int| 0 <= k < i ==> (#[trigger] all[k]).key != key@,
        decreases lines@.len() - i,
    {
        if equal(lines[i].key.as_str(), key) {
            proof {
                assert(all[i as int].key == key@);
            }
            return true;
        }
        i = i + 1;
    }
    false
}

impl SessionTab {
    fn copy(&self) -> (r: Self)
        ensures
            r@ == self@,
    {
        let mut columns: Vec<SessionColumn> = Vec::new();
        let mut i: usize = 0;
        while i < self.columns.len()
            invariant
                i <= self.columns@.len(),
                columns@.len() == i,
                forall|k: int| 0 <= k < i ==> (#[trigger] columns@[k])@ == self.columns@[k]@,
            decreases self.columns@.len() - i,
        {
            columns.push(self.columns[i].copy());
            i = i + 1;
        }
        proof {
            assert(column_views(columns@) =~= column_views(self.columns@));
        }
        SessionTab {
            kind: copy_text(&self.kind),
            sort: match &self.sort {
                Some((key, way)) => Some((key.clone(), way.clone())),
                None => None,
            },
            columns,
        }
    }

    /// The tab, with the columns of `older` that no column here has the key
    /// of.
    #[must_use]
    pub fn carrying(&self, older: &SessionTab) -> (r: SessionTab)
        ensures
            r@ == self@.carrying(older@),
    {
        let mut tab = self.copy();
        let ghost lines = self@.columns;
        let ghost all = older@.columns;
        let ghost keep = |line: SessionColumnView| is_carried(lines, line);
        let mut i: usize = 0;
        proof {
            reveal(Seq::filter);
            assert(tab@.columns =~= lines + all.take(0).filter(keep));
        }
        while i < older.columns.len()
            invariant
                i <= older.columns@.len(),
                lines == self@.columns,
                all == older@.columns,
                keep == (|line: SessionColumnView| is_carried(lines, line)),
                tab@ == (SessionTabView {
                    columns: lines + all.take(i as int).filter(keep),
                    ..self@
                }),
            decreases older.columns@.len() - i,
        {
            let ghost before = tab@;
            let line = &older.columns[i];
            proof {
                reveal(Seq::filter);
                assert(all.take(i + 1).drop_last() =~= all.take(i as int));
                assert(all.take(i + 1).last() == line@);
            }
            if ColumnId::from_key(line.key.as_str()).is_none() && !has_key(
                &self.columns,
                line.key.as_str(),
            ) {
                tab.columns.push(line.copy());
                proof {
                    assert(tab@.columns =~= before.columns.push(line@));
                    assert(tab@.columns =~= lines + all.take(i + 1).filter(keep));
                }
            }
            i = i + 1;
        }
        proof {
            assert(all.take(all.len() as int) =~= all);
        }
        tab
    }
}

impl Session {
    /// The session, with what `older` has and this does not: on each tab the
    /// columns that no column here has the key of, and the tabs that are not
    /// here. So what another build left in the file is still there when the
    /// file is written again.
    #[must_use]
    pub fn carrying(&self, older: &Session) -> (r: Session)
        ensures
            r@ == self@.carrying(older@),
    {
        let mut tabs: Vec<(String, SessionTab)> = Vec::new();
        let ghost ours = self@.carrying(older@).tabs.take(self.tabs@.len() as int);
        let mut i: usize = 0;
        while i < self.tabs.len()
            invariant
                i <= self.tabs@.len(),
                tabs@.len() == i,
                ours == self@.carrying(older@).tabs.take(self.tabs@.len() as int),
                forall|k: int| 0 <= k < i ==> (#[trigger] tab_views(tabs@)[k]) == ours[k],
            decreases self.tabs@.len() - i,
        {
            let ghost before = tab_views(tabs@);
            let key = &self.tabs[i].0;
            let tab = &self.tabs[i].1;
            let then = match older.get(key.as_str()) {
                Some(held) => tab.carrying(held),
                None => tab.copy(),
            };
            proof {
                assert(ours[i as int] == (key@, then@));
            }
            tabs.push((key.clone(), then));
            proof {
                assert(tab_views(tabs@) =~= before.push((key@, then@)));
            }
            i = i + 1;
        }
        let ghost all = older@.tabs;
        let ghost keep = |held: (Seq<char>, SessionTabView)| self@.held(held.0) is None;
        proof {
            reveal(Seq::filter);
            assert(tab_views(tabs@) =~= ours + all.take(0).filter(keep));
        }
        let mut j: usize = 0;
        while j < older.tabs.len()
            invariant
                j <= older.tabs@.len(),
                all == older@.tabs,
                keep == (|held: (Seq<char>, SessionTabView)| self@.held(held.0) is None),
                tab_views(tabs@) == ours + all.take(j as int).filter(keep),
            decreases older.tabs@.len() - j,
        {
            let ghost before = tab_views(tabs@);
            let key = &older.tabs[j].0;
            let tab = &older.tabs[j].1;
            proof {
                reveal(Seq::filter);
                assert(all.take(j + 1).drop_last() =~= all.take(j as int));
                assert(all.take(j + 1).last() == (key@, tab@));
            }
            if self.get(key.as_str()).is_none() {
                tabs.push((key.clone(), tab.copy()));
                proof {
                    assert(tab_views(tabs@) =~= before.push((key@, tab@)));
                    assert(tab_views(tabs@) =~= ours + all.take(j + 1).filter(keep));
                }
            }
            j = j + 1;
        }
        proof {
            assert(all.take(all.len() as int) =~= all);
            assert(tab_views(tabs@) =~= self@.carrying(older@).tabs);
        }
        Session { tab: copy_text(&self.tab), tabs }
    }
}

// ---------------------------------------------------------------------------
// A table's sort and columns
// ---------------------------------------------------------------------------

/// A sort, as the file has it.
pub open spec fn saved_sort(column: ColumnId, descending: bool) -> (Seq<char>, Seq<char>) {
    (
        column.key_text(),
        if descending {
            "desc"@
        } else {
            "asc"@
        },
    )
}

/// The sort the file names, where its column is known.
pub open spec fn sort_held(sort: Option<(Seq<char>, Seq<char>)>) -> Option<(ColumnId, bool)> {
    match sort {
        Some((key, way)) => match column_named(key) {
            Some(column) => Some((column, same(way, "desc"@))),
            None => None,
        },
        None => None,
    }
}

/// Every column, as the file has them.
pub open spec fn saved_columns(columns: Seq<ColumnConfig>) -> Seq<SessionColumnView> {
    columns.map_values(
        |column: ColumnConfig|
            SessionColumnView {
                key: column.id.key_text(),
                width: Some(column.width),
                visible: Some(column.visible),
            },
    )
}

/// The columns with one line of the file put back.
pub open spec fn column_restored(columns: Seq<ColumnConfig>, stored: SessionColumnView) -> Seq<
    ColumnConfig,
> {
    match column_named(stored.key) {
        Some(id) if column_at(columns, id) < columns.len() => {
            let at = column_at(columns, id);
            columns.update(
                at,
                ColumnConfig {
                    width: match stored.width {
                        Some(width) => width,
                        None => columns[at].width,
                    },
                    visible: match stored.visible {
                        Some(visible) => visible,
                        None => columns[at].visible,
                    },
                    ..columns[at]
                },
            )
        },
        _ => columns,
    }
}

/// The columns with every line of the file put back, in turn.
pub open spec fn columns_restored(columns: Seq<ColumnConfig>, held: Seq<SessionColumnView>) -> Seq<
    ColumnConfig,
>
    decreases held.len(),
{
    if held.len() == 0 {
        columns
    } else {
        column_restored(columns_restored(columns, held.drop_last()), held.last())
    }
}

/// A sort, for the file.
#[must_use]
pub fn sort_of(column: ColumnId, descending: bool) -> (r: (String, String))
    ensures
        (r.0@, r.1@) == saved_sort(column, descending),
{
    (
        column.key().to_owned(),
        if descending {
            "desc".to_owned()
        } else {
            "asc".to_owned()
        },
    )
}

/// A sort out of the file, if this build knows the column it names.
#[must_use]
pub fn read_sort(sort: &Option<(String, String)>) -> (r: Option<(ColumnId, bool)>)
    ensures
        r == sort_held(sort_said(*sort)),
{
    match sort {
        None => None,
        Some((key, way)) => match ColumnId::from_key(key.as_str()) {
            None => None,
            Some(column) => Some((column, equal_ignoring_case(way.as_str(), "desc"))),
        },
    }
}

/// Every column, for the file.
#[must_use]
pub fn columns_of(layout: &TableLayout) -> (r: Vec<SessionColumn>)
    ensures
        column_views(r@) == saved_columns(layout.columns@),
{
    let mut out: Vec<SessionColumn> = Vec::new();
    let mut i: usize = 0;
    while i < layout.columns.len()
        invariant
            i <= layout.columns@.len(),
            out@.len() == i,
            forall|k: int|
                0 <= k < i ==> (#[trigger] out@[k])@ == saved_columns(layout.columns@)[k],
        decreases layout.columns@.len() - i,
    {
        let column = layout.columns[i];
        out.push(
            SessionColumn {
                key: column.id.key().to_owned(),
                width: Some(column.width),
                visible: Some(column.visible),
            },
        );
        i = i + 1;
    }
    proof {
        assert(column_views(out@) =~= saved_columns(layout.columns@));
    }
    out
}

fn apply_column(layout: &mut TableLayout, stored: &SessionColumn)
    ensures
        final(layout).columns@ == column_restored(old(layout).columns@, stored@),
{
    let id = match ColumnId::from_key(stored.key.as_str()) {
        Some(id) => id,
        None => return,
    };
    let at: usize = layout.position(id);
    if at < layout.columns.len() {
        let held = layout.columns[at];
        layout.columns[at] = ColumnConfig {
            width: match stored.width {
                Some(width) => width,
                None => held.width,
            },
            visible: match stored.visible {
                Some(visible) => visible,
                None => held.visible,
            },
            ..held
        };
    }
}

/// Widths and visibility out of the file. A key this build does not know is
/// skipped; a column the file does not mention keeps its default.
pub fn apply_columns(layout: &mut TableLayout, held: &Vec<SessionColumn>)
    ensures
        final(layout).columns@ == columns_restored(old(layout).columns@, column_views(held@)),
{
    let ghost was = layout.columns@;
    let ghost all = column_views(held@);
    let mut i: usize = 0;
    proof {
        assert(all.take(0).len() == 0);
    }
    while i < held.len()
        invariant
            i <= held@.len(),
            all == column_views(held@),
            layout.columns@ == columns_restored(was, all.take(i as int)),
        decreases held@.len() - i,
    {
        proof {
            assert(all.take(i + 1).drop_last() =~= all.take(i as int));
            assert(all.take(i + 1).last() == held@[i as int]@);
        }
        apply_column(layout, &held[i]);
        i = i + 1;
    }
    proof {
        assert(all.take(all.len() as int) =~= all);
    }
}

// ---------------------------------------------------------------------------
// What the file promises
// ---------------------------------------------------------------------------

/// A sort comes back out of the file as it went in.
pub proof fn law_a_sort_survives_the_session_file(column: ColumnId, descending: bool)
    ensures
        sort_held(Some(saved_sort(column, descending))) == Some((column, descending)),
{
    law_a_column_is_found_by_its_key(column);
    reveal_strlit("asc");
    reveal_strlit("desc");
    assert(crate::text::lower("asc"@).len() == 3);
    assert(crate::text::lower("desc"@).len() == 4);
}

/// A sort whose column no build here knows, and a column line with such a
/// key, change nothing.
pub proof fn law_an_unknown_key_changes_nothing(
    columns: Seq<ColumnConfig>,
    stored: SessionColumnView,
    way: Seq<char>,
)
    requires
        column_named(stored.key) is None,
    ensures
        column_restored(columns, stored) == columns,
        sort_held(Some((stored.key, way))) is None,
{
}

/// Lines that no column here has the key of change nothing, however many
/// follow the ones that do.
proof fn lemma_unknown_lines(
    columns: Seq<ColumnConfig>,
    lines: Seq<SessionColumnView>,
    more: Seq<SessionColumnView>,
)
    requires
        forall|i: int| 0 <= i < more.len() ==> column_named((#[trigger] more[i]).key) is None,
    ensures
        columns_restored(columns, lines + more) == columns_restored(columns, lines),
    decreases more.len(),
{
    if more.len() == 0 {
        assert(lines + more =~= lines);
    } else {
        lemma_unknown_lines(columns, lines, more.drop_last());
        assert((lines + more).drop_last() =~= lines + more.drop_last());
        assert((lines + more).last() == more.last());
    }
}

/// What is carried over changes no table.
pub proof fn law_what_is_carried_changes_no_table(
    columns: Seq<ColumnConfig>,
    tab: SessionTabView,
    older: SessionTabView,
)
    ensures
        columns_restored(columns, tab.carrying(older).columns) == columns_restored(
            columns,
            tab.columns,
        ),
        tab.carrying(older).kind == tab.kind,
        tab.carrying(older).sort == tab.sort,
{
    let keep = |line: SessionColumnView| is_carried(tab.columns, line);
    let more = older.columns.filter(keep);
    assert forall|i: int| 0 <= i < more.len() implies column_named((#[trigger] more[i]).key)
        is None by {
        older.columns.lemma_filter_pred(keep, i);
    }
    lemma_unknown_lines(columns, tab.columns, more);
}

/// What is on file for a tab, once another file has been carried over.
pub proof fn lemma_held_carrying(session: SessionView, older: SessionView, key: Seq<char>)
    ensures
        session.carrying(older).held(key) == match (session.held(key), older.held(key)) {
            (Some(tab), Some(held)) => Some(tab.carrying(held)),
            (Some(tab), None) => Some(tab),
            (None, held) => held,
        },
{
    let all = session.carrying(older).tabs;
    let at = tab_at(session.tabs, key);
    lemma_tab_found(session.tabs, key);
    lemma_tab_found(older.tabs, key);
    assert forall|k: int| 0 <= k < session.tabs.len() implies (#[trigger] all[k]).0
        == session.tabs[k].0 by {}
    if at < session.tabs.len() {
        assert forall|k: int| 0 <= k < at implies (#[trigger] all[k]).0 != key by {
            assert(session.tabs[k].0 != key);
        }
        lemma_tab_at(all, key, at);
    } else {
        let keep = |held: (Seq<char>, SessionTabView)| session.held(held.0) is None;
        let rest = older.tabs.filter(keep);
        lemma_kept_tab(older.tabs, keep, key);
        lemma_tab_found(rest, key);
        let there = session.tabs.len() + tab_at(rest, key);
        assert(all.len() == session.tabs.len() + rest.len());
        assert forall|k: int| 0 <= k < there implies (#[trigger] all[k]).0 != key by {
            if k < session.tabs.len() {
                assert(session.tabs[k].0 != key);
            } else {
                assert(all[k] == rest[k - session.tabs.len()]);
            }
        }
        lemma_tab_at(all, key, there);
    }
}

/// A filter by key keeps what is found under a key it keeps.
proof fn lemma_kept_tab(
    tabs: Seq<(Seq<char>, SessionTabView)>,
    keep: spec_fn((Seq<char>, SessionTabView)) -> bool,
    key: Seq<char>,
)
    requires
        forall|held: (Seq<char>, SessionTabView)| held.0 == key ==> #[trigger] keep(held),
    ensures
        ({
            let rest = tabs.filter(keep);
            &&& (tab_at(rest, key) < rest.len()) == (tab_at(tabs, key) < tabs.len())
            &&& tab_at(tabs, key) < tabs.len() ==> rest[tab_at(rest, key)] == tabs[tab_at(
                tabs,
                key,
            )]
        }),
    decreases tabs.len(),
{
    reveal(Seq::filter);
    if tabs.len() > 0 {
        let before = tabs.drop_last();
        lemma_kept_tab(before, keep, key);
        lemma_tab_found(before, key);
        lemma_tab_found(before.filter(keep), key);
        lemma_tab_push(before, tabs.last(), key);
        assert(before.push(tabs.last()) =~= tabs);
        lemma_tab_push(before.filter(keep), tabs.last(), key);
    }
}

/// One more tab is found only where none was.
proof fn lemma_tab_push(
    tabs: Seq<(Seq<char>, SessionTabView)>,
    held: (Seq<char>, SessionTabView),
    key: Seq<char>,
)
    ensures
        tab_at(tabs.push(held), key) == if tab_at(tabs, key) < tabs.len() || held.0 == key {
            tab_at(tabs, key)
        } else {
            tab_at(tabs, key) + 1
        },
{
    let at = tab_at(tabs, key);
    let then = tabs.push(held);
    lemma_tab_found(tabs, key);
    assert forall|k: int| 0 <= k < at implies (#[trigger] then[k]).0 != key by {
        assert(then[k] == tabs[k]);
    }
    if at < tabs.len() || held.0 == key {
        lemma_tab_at(then, key, at);
    } else {
        lemma_tab_at(then, key, at + 1);
    }
}

/// A tab that is not on this file, and a column that no column here has the
/// key of, are still on the file once they have been carried over; what this
/// file has itself is as it was.
pub proof fn law_what_is_not_known_stays_on_file(
    session: SessionView,
    older: SessionView,
    key: Seq<char>,
)
    ensures
        ({
            let then = session.carrying(older);
            &&& then.tab == session.tab
            &&& session.held(key) is None ==> then.held(key) == older.held(key)
            &&& session.held(key) matches Some(tab) ==> then.held(key) matches Some(now)
                && now.kind == tab.kind && now.sort == tab.sort && now.columns.take(
                tab.columns.len() as int,
            ) == tab.columns && (older.held(key) matches Some(held) ==> forall|i: int|
                0 <= i < held.columns.len() && is_carried(tab.columns, #[trigger] held.columns[i])
                    ==> now.columns.contains(held.columns[i]))
        }),
{
    lemma_held_carrying(session, older, key);
    if let (Some(tab), Some(held)) = (session.held(key), older.held(key)) {
        let keep = |line: SessionColumnView| is_carried(tab.columns, line);
        let more = held.columns.filter(keep);
        let now = tab.carrying(held);
        assert(now.columns.take(tab.columns.len() as int) =~= tab.columns);
        assert forall|i: int|
            0 <= i < held.columns.len() && is_carried(
                tab.columns,
                #[trigger] held.columns[i],
            ) implies now.columns.contains(held.columns[i]) by {
            held.columns.lemma_filter_contains(keep, i);
            let k = choose|k: int| 0 <= k < more.len() && more[k] == held.columns[i];
            assert(now.columns[tab.columns.len() + k] == held.columns[i]);
        }
    } else if let Some(tab) = session.held(key) {
        assert(tab.columns.take(tab.columns.len() as int) =~= tab.columns);
    }
}

/// The same columns, whatever their widths and whether or not they show.
pub open spec fn same_columns(a: Seq<ColumnConfig>, b: Seq<ColumnConfig>) -> bool {
    &&& a.len() == b.len()
    &&& forall|i: int| 0 <= i < a.len() ==> (#[trigger] a[i]).id == b[i].id
}

/// No column stands twice.
pub open spec fn each_once(columns: Seq<ColumnConfig>) -> bool {
    forall|i: int, j: int|
        0 <= i < j < columns.len() ==> (#[trigger] columns[i]).id != (#[trigger] columns[j]).id
}

/// Widths and visibility come back out of the file as they went in, whatever
/// they were in the table they are put back into.
pub proof fn law_columns_survive_the_session_file(a: Seq<ColumnConfig>, b: Seq<ColumnConfig>)
    requires
        same_columns(a, b),
        each_once(a),
    ensures
        columns_restored(b, saved_columns(a)) == a,
{
    lemma_columns_restored(a, b, a.len() as int);
    assert(saved_columns(a).take(a.len() as int) =~= saved_columns(a));
    assert(a.take(a.len() as int) + b.skip(a.len() as int) =~= a);
}

proof fn lemma_columns_restored(a: Seq<ColumnConfig>, b: Seq<ColumnConfig>, n: int)
    requires
        same_columns(a, b),
        each_once(a),
        0 <= n <= a.len(),
    ensures
        columns_restored(b, saved_columns(a).take(n)) == a.take(n) + b.skip(n),
    decreases n,
{
    let saved = saved_columns(a);
    if n == 0 {
        assert(saved.take(0).len() == 0);
        assert(a.take(0) + b.skip(0) =~= b);
    } else {
        lemma_columns_restored(a, b, n - 1);
        assert(saved.take(n).drop_last() =~= saved.take(n - 1));
        assert(saved.take(n).last() == saved[n - 1]);
        let id = a[n - 1].id;
        law_a_column_is_found_by_its_key(id);
        let held = a.take(n - 1) + b.skip(n - 1);
        assert forall|k: int| 0 <= k < n - 1 implies (#[trigger] held[k]).id != id by {
            assert(held[k] == a[k]);
        }
        crate::columns::lemma_column_at(held, id, n - 1);
        assert(column_restored(held, saved[n - 1]) =~= a.take(n) + b.skip(n));
    }
}

} // verus!
