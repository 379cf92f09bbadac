//! What the application leaves in the session file, and what its status bar
//! says.

use vstd::prelude::*;

use super::keys::Section;
use super::program::{scope_data, App};
use super::screen::Tab;
use super::state::{age_said, azure_problems, refusal_line, tab_position, AppView, Tone};
use crate::columns::ColumnConfig;
use crate::kube::{said, Kind};
use crate::session::{
    columns_restored, law_what_is_carried_changes_no_table, lemma_held_carrying, Session,
    SessionView,
};
use crate::store::{problem_line, ScopeData};
use crate::text::{equal, number, texts};
use crate::timestamp::Timestamp;

verus! {

/// "just now", "12s ago", or "never read".
#[must_use]
pub fn age_of(read_at: Option<Timestamp>, today: Timestamp) -> (r: String)
    ensures
        r@ == age_said(read_at, today),
{
    match read_at {
        None => "never read".to_owned(),
        Some(read_at) => {
            let mut age = read_at.relative_age(today);
            if equal(age.as_str(), "now") {
                "just now".to_owned()
            } else {
                age.push_str(" ago");
                age
            }
        },
    }
}

proof fn lemma_tab_position(tabs: Seq<Tab>, key: Seq<char>, i: int)
    requires
        0 <= i <= tabs.len(),
        forall|k: int| 0 <= k < i ==> (#[trigger] tabs[k]).key_text() != key,
        i < tabs.len() ==> tabs[i].key_text() == key,
    ensures
        tab_position(tabs, key) == i,
    decreases i,
{
    if i > 0 {
        assert(tabs[0].key_text() != key);
        assert forall|k: int| 0 <= k < i - 1 implies (#[trigger] tabs.skip(1)[k]).key_text()
            != key by {
            assert(tabs.skip(1)[k] == tabs[k + 1]);
        }
        lemma_tab_position(tabs.skip(1), key, i - 1);
    }
}

fn push_refusal(out: &mut Vec<String>, scope: &str, data: &ScopeData, kind: Kind)
    ensures
        texts(final(out)@) == texts(old(out)@) + refusal_line(scope@, *data, kind),
{
    let ghost was = out@;
    if let Some(message) = data.listing(kind).error {
        let mut line = scope.to_owned();
        line.push_str(" ");
        line.push_str(kind.noun());
        line.push_str(": ");
        line.push_str(message.as_str());
        let ghost said = line@;
        out.push(line);
        proof {
            assert(texts(out@) =~= texts(was) + seq![said]);
        }
    } else {
        proof {
            assert(texts(out@) =~= texts(was) + Seq::<Seq<char>>::empty());
        }
    }
}

impl App {
    // ── The session ────────────────────────────────────────────────────

    /// The layout as it stands, for the file: the tab, each scope tab's kind
    /// and its pods table, and each Azure table's sort and columns. Never the
    /// query, never the cursor, and nothing a vault or a cluster answered.
    #[must_use]
    pub fn session(&self) -> (r: Session)
        ensures
            r@ == self@.saved(),
    {
        let mut session = Session::default();
        if self.tab < self.tabs.len() {
            session.tab = Some(self.tabs[self.tab].key());
        }
        let mut i: usize = 0;
        while i < self.tabs.len() && i < self.screens.len()
            invariant
                i <= self.tabs@.len(),
                i <= self.screens@.len(),
                session@ == self@.saved_to(i as int),
            decreases self.tabs@.len() - i,
        {
            let key = self.tabs[i].key();
            self.screens[i].save(session.tab(key.as_str()));
            i = i + 1;
        }
        session
    }

    fn tab_place(&self, key: &str) -> (r: usize)
        ensures
            r == tab_position(self@.tabs, key@),
            r <= self.tabs@.len(),
    {
        let mut i: usize = 0;
        while i < self.tabs.len() && !equal(self.tabs[i].key().as_str(), key)
            invariant
                i <= self.tabs@.len(),
                forall|k: int| 0 <= k < i ==> (#[trigger] self.tabs@[k]).key_text() != key@,
            decreases self.tabs@.len() - i,
        {
            i = i + 1;
        }
        proof {
            lemma_tab_position(self.tabs@, key@, i as int);
        }
        i
    }

    /// Puts a session back, before the first frame. Anything this build does
    /// not recognise is left where it is: a column key from a newer version is
    /// ignored here, and [`Session::carrying`] keeps it in the file, rather
    /// than dropped and lost the next time an older binary runs.
    pub fn restore(&mut self, session: &Session)
        ensures
            final(self)@ == old(self)@.restored(session@),
    {
        if let Some(key) = &session.tab {
            let at: usize = self.tab_place(key.as_str());
            if at < self.tabs.len() {
                self.tab = at;
            }
        }
        let ghost was = self@;
        let ghost then = old(self)@.screens_restored(session@);
        let mut i: usize = 0;
        while i < self.tabs.len() && i < self.screens.len()
            invariant
                i <= self.tabs@.len(),
                i <= self.screens@.len(),
                self.screens@.len() == then.len(),
                then == old(self)@.screens_restored(session@),
                was == (AppView { tab: old(self)@.tab_restored(session@), ..old(self)@ }),
                self@ == (AppView { screens: self@.screens, ..was }),
                forall|k: int| 0 <= k < i ==> (#[trigger] self.screens@[k])@ == then[k],
                forall|k: int|
                    i <= k < then.len() ==> (#[trigger] self.screens@[k])@ == old(self)@.screens[k],
            decreases self.tabs@.len() - i,
        {
            let key = self.tabs[i].key();
            if let Some(held) = session.get(key.as_str()) {
                self.screens[i].restore(held);
            }
            i = i + 1;
        }
        proof {
            assert(self@.screens =~= then);
        }
    }

    // ── The status bar ─────────────────────────────────────────────────

    /// What the status bar says on the left when nothing has just happened.
    #[must_use]
    pub fn footer_hint(&self) -> (r: String)
        ensures
            r@ == self@.hint(),
    {
        if self.tab < self.screens.len() {
            self.screens[self.tab].footer_hint(&self.shell)
        } else {
            String::new()
        }
    }

    fn scope_state(
        &self,
        scope: &str,
        data: &ScopeData,
        kind: Kind,
        spinner: &str,
        today: Timestamp,
    ) -> (r: (String, Tone))
        ensures
            (r.0@, r.1) == self@.scope_said(scope@, *data, kind, spinner@, today),
    {
        proof {
            reveal(AppView::scope_said);
        }
        let listing = data.listing(kind);
        if data.reading && listing.reads == 0 && listing.count == 0 {
            let mut text = spinner.to_owned();
            text.push_str(" reading ");
            text.push_str(scope);
            text.push_str(" ");
            text.push_str(kind.noun());
            text.push_str("…");
            return (text, Tone::Busy);
        }
        if let Some(message) = listing.error {
            let mut text = "! ".to_owned();
            text.push_str(scope);
            text.push_str(" ");
            text.push_str(kind.noun());
            text.push_str(": ");
            text.push_str(message.as_str());
            return (text, Tone::Wrong);
        }
        let mut text = if data.reading {
            let mut text = spinner.to_owned();
            text.push_str(" ");
            text
        } else {
            "● ".to_owned()
        };
        text.push_str(number(listing.count as u64).as_str());
        text.push_str(" ");
        text.push_str(kind.noun());
        text.push_str(" · ");
        text.push_str(age_of(listing.read_at, today).as_str());
        (text, Tone::Quiet)
    }

    fn azure_state(&self, registries: bool, spinner: &str, today: Timestamp) -> (r: (String, Tone))
        ensures
            (r.0@, r.1) == self@.azure_said(registries, spinner@, today),
    {
        proof {
            reveal(AppView::azure_said);
        }
        let store = &self.store.azure;
        if store.refreshing {
            let mut text = spinner.to_owned();
            text.push_str(" ");
            match &store.progress {
                Some(said) => text.push_str(said.as_str()),
                None => text.push_str("reading…"),
            }
            return (text, Tone::Busy);
        }
        if let Some(problem) = store.first_problem() {
            let mut text = "! ".to_owned();
            text.push_str(problem_line(problem).as_str());
            return (text, Tone::Wrong);
        }
        let mut counts = String::new();
        if registries {
            counts.push_str(number(store.inventory.registries.len() as u64).as_str());
            counts.push_str(" registries · ");
            counts.push_str(number(store.repositories.len() as u64).as_str());
            counts.push_str(" repositories");
        } else {
            counts.push_str(number(store.inventory.vaults.len() as u64).as_str());
            counts.push_str(" vaults · ");
            counts.push_str(number(store.secrets.len() as u64).as_str());
            counts.push_str(" secrets");
        }
        let ghost counted = counts@;
        let mut text = "● ".to_owned();
        text.push_str(counts.as_str());
        text.push_str(" · ");
        text.push_str(age_of(store.read_at, today).as_str());
        proof {
            assert(counted =~= if registries {
                crate::text::decimal(store.inventory.registries@.len()) + " registries · "@
                    + crate::text::decimal(store.repositories@.len()) + " repositories"@
            } else {
                crate::text::decimal(store.inventory.vaults@.len()) + " vaults · "@
                    + crate::text::decimal(store.secrets@.len()) + " secrets"@
            });
        }
        (text, Tone::Quiet)
    }

    /// What the status bar says on the right: what the open tab is doing, or
    /// what is wrong with it, or what it holds and how old that is.
    #[must_use]
    pub fn store_state(&self, spinner: &str, today: Timestamp) -> (r: (String, Tone))
        ensures
            (r.0@, r.1) == self@.state_said(spinner@, today),
    {
        let tab: usize = self.tab;
        if tab >= self.tabs.len() {
            return (String::new(), Tone::Plain);
        }
        match &self.tabs[tab] {
            Tab::Scope(scope) => match (scope_data(&self.store, tab), self.kind()) {
                (Some(data), Some(kind)) => self.scope_state(
                    scope.scope.describe().as_str(),
                    data,
                    kind,
                    spinner,
                    today,
                ),
                _ => (String::new(), Tone::Plain),
            },
            Tab::Secrets => self.azure_state(false, spinner, today),
            Tab::Registries => self.azure_state(true, spinner, today),
        }
    }

    /// What a tab's badge says.
    #[must_use]
    pub fn badge(&self, at: usize, today: Timestamp) -> (r: Option<String>)
        ensures
            said(r) == if at < self@.screens.len() {
                self@.screens[at as int].badge(self@.data_at(at), self@.store.azure, today)
            } else {
                None::<Seq<char>>
            },
    {
        if at < self.screens.len() {
            self.screens[at].badge(scope_data(&self.store, at), &self.store.azure, today)
        } else {
            None
        }
    }

    /// Which of the help's sections is the open tab's.
    #[must_use]
    pub fn section(&self) -> (r: Section)
        ensures
            r == if self@.tab < self@.screens.len() {
                self@.screens[self@.tab as int].section()
            } else {
                Section::Secrets
            },
    {
        if self.tab < self.screens.len() {
            self.screens[self.tab].section()
        } else {
            Section::Secrets
        }
    }

    /// Everything that is wrong, a line each, for the help: what each scope's
    /// reads were refused with, then the Azure half's problems.
    #[must_use]
    pub fn problems(&self) -> (r: Vec<String>)
        ensures
            texts(r@) == self@.problems(),
    {
        let mut out: Vec<String> = Vec::new();
        let mut i: usize = 0;
        proof {
            assert(texts(out@) =~= Seq::<Seq<char>>::empty());
        }
        while i < self.tabs.len()
            invariant
                i <= self.tabs@.len(),
                texts(out@) == self@.scope_problems(i as nat),
            decreases self.tabs@.len() - i,
        {
            if let (Tab::Scope(tab), Some(data)) = (&self.tabs[i], scope_data(&self.store, i)) {
                let name = tab.scope.describe();
                push_refusal(&mut out, name.as_str(), data, Kind::Pods);
                push_refusal(&mut out, name.as_str(), data, Kind::Events);
                push_refusal(&mut out, name.as_str(), data, Kind::ConfigMaps);
                push_refusal(&mut out, name.as_str(), data, Kind::Secrets);
            }
            i = i + 1;
        }
        let ghost before = texts(out@);
        let problems = &self.store.azure.problems;
        let ghost all = problems@;
        let mut k: usize = 0;
        proof {
            assert(all.take(0) =~= Seq::<crate::store::Problem>::empty());
            assert(before + azure_problems(all.take(0)) =~= before);
        }
        while k < problems.len()
            invariant
                k <= problems@.len(),
                all == problems@,
                texts(out@) == before + azure_problems(all.take(k as int)),
            decreases problems@.len() - k,
        {
            let ghost was = out@;
            let line = problem_line(&problems[k]);
            let ghost said = line@;
            out.push(line);
            proof {
                assert(texts(out@) =~= texts(was).push(said));
                assert(azure_problems(all.take(k + 1)) =~= azure_problems(all.take(k as int)).push(
                    said,
                ));
                assert(texts(out@) =~= before + azure_problems(all.take(k + 1)));
            }
            k = k + 1;
        }
        proof {
            assert(all.take(all.len() as int) =~= all);
        }
        out
    }

    /// Works out the open table's rows again, before it is drawn.
    pub fn refilter(&mut self, today: Timestamp)
        ensures
            final(self)@ == old(self)@.rows_settled(today),
    {
        let tab: usize = self.tab;
        if tab < self.screens.len() {
            proof {
                super::program::lemma_one_screen(self.screens@, tab as int);
            }
            self.screens[tab].refilter(
                scope_data(&self.store, tab),
                &self.store.azure,
                today,
            );
        }
    }
}

/// What one file carries over from another is ignored where it is put back:
/// every tab that the file itself has is as it would have been without it.
pub proof fn law_what_is_carried_is_ignored(
    app: AppView,
    session: SessionView,
    older: SessionView,
)
    requires
        forall|i: int|
            0 <= i < app.tabs.len() ==> session.held((#[trigger] app.tabs[i]).key_text()) is Some,
    ensures
        app.restored(session.carrying(older)) == app.restored(session),
{
    let then = session.carrying(older);
    assert forall|i: int| 0 <= i < app.screens.len() implies #[trigger] app.screens_restored(
        then,
    )[i] == app.screens_restored(session)[i] by {
        if i < app.tabs.len() {
            let key = app.tabs[i].key_text();
            lemma_held_carrying(session, older, key);
            assert(session.held(key) is Some);
            if let (Some(tab), Some(held)) = (session.held(key), older.held(key)) {
                assert forall|columns: Seq<ColumnConfig>|
                    #[trigger] columns_restored(columns, tab.carrying(held).columns)
                        == columns_restored(columns, tab.columns) by {
                    law_what_is_carried_changes_no_table(columns, tab, held);
                }
            }
        }
    }
    assert(app.screens_restored(then) =~= app.screens_restored(session));
}

} // verus!
