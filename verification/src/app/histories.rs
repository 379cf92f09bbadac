//! What a log's worker is told over a whole run, whatever is pressed, clicked,
//! read or restored between two turns of the clock.

use vstd::prelude::*;

use super::cursor::ListCursor;
use super::list::ListView;
use super::pane::PaneView;
use super::promises::saved_layout;
use super::registries::{RegistriesView, TableView};
use super::scope::ScopeView;
use super::screen::{ActionView, Button, Target};
use super::screens::ScreenView;
use super::secrets::SecretsView;
use super::shell::{topmost, Menu, ShellView};
use super::state::AppView;
use crate::columns::ColumnConfig;
use crate::filter::Env;
use crate::input::{KeyCode, KeyEvent, MouseEvent, MouseEventKind};
use crate::kube::{self, Kind, LogView, RequestView};
use crate::session::{same_columns, SessionView};
use crate::store::{AzureStore, Store};
use crate::timestamp::Timestamp;
use crate::worker;

verus! {

/// One thing that can happen to the application.
#[allow(inconsistent_fields)]
pub enum Step {
    Key(KeyEvent),
    Pointer(MouseEvent),
    Paste(Seq<char>),
    Azure { event: worker::Event, then: AzureStore, now: u64, today: Timestamp },
    Kube { event: kube::Event, then: Store },
    Look(Timestamp),
    Restore(SessionView),
    Tab(usize),
    Kind(Kind),
    Env(Option<Env>),
    Clear,
    Push(Button),
    /// What the screen that is open notes while it is drawn, and whatever is
    /// said or noted around the screens.
    Drawn { shell: ShellView, screen: ScreenView },
    /// A table's columns made wider or narrower, shown or hidden.
    Columns { at: int, columns: Seq<ColumnConfig> },
    Tick { now: u64, today: Timestamp },
}

/// A list with what drawing it notes: how wide it is and how far it scrolls.
pub open spec fn drawn_list(a: ListView, b: ListView) -> ListView {
    ListView {
        cursor: ListCursor { scroll: b.cursor.scroll, ..a.cursor },
        available: b.available,
        ..a
    }
}

/// A table with what drawing it notes.
pub open spec fn drawn_table(a: TableView, b: TableView) -> TableView {
    TableView { cursor: ListCursor { scroll: b.cursor.scroll, ..a.cursor }, ..a }
}

/// Whether one screen is another with what drawing it notes: how wide it is,
/// how far its parts scroll, and the value its pane paints.
pub open spec fn drawn_as(a: ScreenView, b: ScreenView) -> bool {
    match (a, b) {
        (ScreenView::Scope(a), ScreenView::Scope(b)) => b == ScopeView {
            lists: a.lists.with(a.kind, drawn_list(a.list(), b.lists.of(a.kind))),
            details_scroll: b.details_scroll,
            pane: PaneView { scroll: b.pane.scroll, value: b.pane.value, ..a.pane },
            ..a
        },
        (ScreenView::Secrets(a), ScreenView::Secrets(b)) => b == SecretsView {
            cursor: ListCursor { scroll: b.cursor.scroll, ..a.cursor },
            available: b.available,
            details_scroll: b.details_scroll,
            ..a
        },
        (ScreenView::Registries(a), ScreenView::Registries(b)) => b == RegistriesView {
            repositories: drawn_table(a.repositories, b.repositories),
            tags: drawn_table(a.tags, b.tags),
            available: b.available,
            details_scroll: b.details_scroll,
            ..a
        },
        _ => false,
    }
}

/// A screen with the columns of its table.
pub open spec fn with_layout(screen: ScreenView, layout: Seq<ColumnConfig>) -> ScreenView {
    match screen {
        ScreenView::Scope(screen) => ScreenView::Scope(
            screen.with_list(Kind::Pods, ListView { layout, ..screen.lists.pods }),
        ),
        ScreenView::Secrets(screen) => ScreenView::Secrets(SecretsView { layout, ..screen }),
        ScreenView::Registries(screen) => ScreenView::Registries(
            RegistriesView {
                repositories: TableView { layout, ..screen.repositories },
                ..screen
            },
        ),
    }
}

/// Whether an action says what to follow, or that nothing is.
pub open spec fn is_about_logs(action: ActionView) -> bool {
    action matches ActionView::Kube(request) && (request is Follow || request is Unfollow)
}

/// What says that a target, or none, is to be followed.
pub open spec fn following_said(target: Option<LogView>) -> ActionView {
    ActionView::Kube(
        match target {
            Some(target) => RequestView::Follow(target),
            None => RequestView::Unfollow,
        },
    )
}

/// What the worker was last told to follow, once it has been sent `actions`.
pub open spec fn told_by(told: Option<LogView>, actions: Seq<ActionView>) -> Option<LogView>
    decreases actions.len(),
{
    if actions.len() == 0 {
        told
    } else {
        match actions.last() {
            ActionView::Kube(RequestView::Follow(target)) => Some(target),
            ActionView::Kube(RequestView::Unfollow) => None,
            _ => told_by(told, actions.drop_last()),
        }
    }
}

impl AppView {
    /// Once one thing has happened, with everything it asks of the run loop.
    pub open spec fn took(self, step: Step) -> (Self, Seq<ActionView>) {
        match step {
            Step::Key(key) => (self.pressed(key).0, seq![self.pressed(key).1]),
            Step::Pointer(event) => (self.pointed(event).0, seq![self.pointed(event).1]),
            Step::Paste(text) => (self.pasted(text), Seq::empty()),
            Step::Azure { event, then, now, today } => {
                let (app, action) = self.azure_told(event, then, now, today);
                (app, seq![action])
            },
            Step::Kube { event, then } => {
                let (app, action) = self.kube_told(event, then);
                (app, seq![action])
            },
            Step::Look(today) => (self.rows_settled(today), Seq::empty()),
            Step::Restore(session) => (self.restored(session), Seq::empty()),
            Step::Tab(to) => (self.switched(to).0, seq![self.switched(to).1]),
            Step::Kind(kind) => (self.with_kind(kind).0, seq![self.with_kind(kind).1]),
            Step::Env(env) => (self.with_env(env), Seq::empty()),
            Step::Clear => (self.cleared(), Seq::empty()),
            Step::Push(button) => (self.pushed(button).0, seq![self.pushed(button).1]),
            Step::Drawn { shell, screen } => (
                if self.tab < self.screens.len() && drawn_as(
                    self.screens[self.tab as int],
                    screen,
                ) {
                    self.with_screen(screen).with_shell(shell)
                } else {
                    self.with_shell(shell)
                },
                Seq::empty(),
            ),
            Step::Columns { at, columns } => (
                if 0 <= at < self.screens.len() && same_columns(
                    saved_layout(self.screens[at]),
                    columns,
                ) {
                    AppView {
                        screens: self.screens.update(at, with_layout(self.screens[at], columns)),
                        ..self
                    }
                } else {
                    self
                },
                Seq::empty(),
            ),
            Step::Tick { now, today } => self.ticked(now, today),
        }
    }

    /// Once all of `steps` have happened, with what the worker was last told
    /// to follow.
    pub open spec fn run(self, steps: Seq<Step>) -> (Self, Option<LogView>)
        decreases steps.len(),
    {
        if steps.len() == 0 {
            (self, self.following)
        } else {
            let (app, told) = self.run(steps.drop_last());
            let (then, actions) = app.took(steps.last());
            (then, told_by(told, actions))
        }
    }
}

// ---------------------------------------------------------------------------
// Only the clock speaks of logs
// ---------------------------------------------------------------------------

/// Whether a step leaves the follow alone and says nothing of it.
spec fn leaves_the_follow(app: AppView, after: (AppView, ActionView)) -> bool {
    after.0.following == app.following && !is_about_logs(after.1)
}

proof fn lemma_a_button(app: AppView, button: Button)
    ensures
        leaves_the_follow(app, app.pushed(button)),
{
    reveal(AppView::pushed);
    reveal(ScopeView::pushed);
}

proof fn lemma_a_screens_key(app: AppView, key: KeyEvent)
    ensures
        leaves_the_follow(app, app.screen_pressed(key)),
{
    reveal(AppView::screen_pressed);
    reveal(ScreenView::pressed);
}

proof fn lemma_a_tab(app: AppView, to: usize)
    ensures
        leaves_the_follow(app, app.switched(to)),
{
    reveal(AppView::switched);
}

proof fn lemma_a_kind(app: AppView, kind: Kind)
    ensures
        leaves_the_follow(app, app.with_kind(kind)),
{
    reveal(AppView::with_kind);
}

proof fn lemma_an_answer(app: AppView, key: KeyEvent, kind: MouseEventKind, target: Option<Target>)
    ensures
        leaves_the_follow(app, app.modal_pressed(key)),
        leaves_the_follow(app, app.modal_clicked(kind, target)),
{
    reveal(AppView::modal_pressed);
    reveal(AppView::modal_clicked);
}

proof fn lemma_a_menu(app: AppView, menu: Menu, at: usize, code: KeyCode, target: Option<Target>)
    ensures
        leaves_the_follow(app, app.menu_pressed(menu, at, code)),
        leaves_the_follow(app, app.menu_clicked(menu, target)),
{
    reveal(AppView::menu_pressed);
    reveal(AppView::menu_clicked);
    reveal(AppView::with_env);
    reveal(AppView::with_kind);
}

proof fn lemma_a_scopes_key(app: AppView, kind: Kind, key: KeyEvent)
    ensures
        leaves_the_follow(app, app.scope_pressed(kind, key)),
{
    reveal(AppView::scope_pressed);
    reveal(AppView::to_events);
    reveal(AppView::rollout_asked);
    reveal(AppView::previous_toggled);
    reveal(AppView::container_changed);
    reveal(AppView::zoomed);
    reveal(AppView::name_copied);
    reveal(AppView::line_copied);
    reveal(AppView::with_kind);
    lemma_a_screens_key(app, key);
    assert forall|button: Button| leaves_the_follow(app, #[trigger] app.pushed(button)) by {
        lemma_a_button(app, button);
    }
}

proof fn lemma_a_command(app: AppView, key: KeyEvent)
    ensures
        leaves_the_follow(app, app.commanded(key)),
{
    reveal(AppView::commanded);
    reveal(AppView::switched);
    reveal(AppView::escaped);
    reveal(AppView::refreshed);
    lemma_a_screens_key(app, key);
    lemma_a_screens_key(app.cleared(), key);
    assert forall|kind: Kind| leaves_the_follow(app, #[trigger] app.scope_pressed(kind, key)) by {
        lemma_a_scopes_key(app, kind, key);
    }
}

proof fn lemma_a_key(app: AppView, key: KeyEvent)
    ensures
        leaves_the_follow(app, app.pressed(key)),
{
    reveal(AppView::pressed);
    reveal(AppView::search_pressed);
    reveal(AppView::pane_search_pressed);
    lemma_a_command(app, key);
    lemma_an_answer(app, key, MouseEventKind::Other, None);
    if let Some((menu, at)) = app.shell.menu {
        lemma_a_menu(app, menu, at, key.code, None);
    }
}

proof fn lemma_a_click(app: AppView, target: Target)
    ensures
        leaves_the_follow(app, app.clicked(target)),
{
    reveal(AppView::clicked);
    assert forall|to: usize| leaves_the_follow(app, #[trigger] app.switched(to)) by {
        lemma_a_tab(app, to);
    }
    assert forall|kind: Kind| leaves_the_follow(app, #[trigger] app.with_kind(kind)) by {
        lemma_a_kind(app, kind);
    }
    assert forall|button: Button| leaves_the_follow(app, #[trigger] app.pushed(button)) by {
        lemma_a_button(app, button);
    }
}

proof fn lemma_a_pointer(app: AppView, event: MouseEvent)
    ensures
        leaves_the_follow(app, app.pointed(event)),
{
    reveal(AppView::pointed);
    let target = topmost(app.shell.regions, event.column, event.row);
    let key = KeyEvent {
        code: KeyCode::Esc,
        control: false,
        alt: false,
        shift: false,
        pressed: false,
    };
    lemma_an_answer(app, key, event.kind, target);
    if let Some((menu, at)) = app.shell.menu {
        lemma_a_menu(app, menu, at, KeyCode::Esc, target);
    }
    if let Some(target) = target {
        lemma_a_click(app, target);
    }
}

proof fn lemma_azure_news(
    app: AppView,
    event: worker::Event,
    then: AzureStore,
    now: u64,
    today: Timestamp,
)
    ensures
        leaves_the_follow(app, app.azure_told(event, then, now, today)),
{
    reveal(AppView::azure_told);
    reveal(AppView::secrets_reread);
    reveal(AppView::repositories_reread);
    reveal(AppView::detail_reread);
    reveal(AppView::value_come);
}

proof fn lemma_rows_read(app: AppView, was: Store, at: usize, kind: Kind, ok: bool)
    ensures
        app.read_landed(was, at, kind, ok).following == app.following,
{
    reveal(AppView::rows_read);
    reveal(AppView::read_failed);
}

proof fn lemma_a_tabs_news(app: AppView, event: kube::Event)
    ensures
        leaves_the_follow(app, app.screen_told(event)),
{
    reveal(AppView::screen_told);
}

proof fn lemma_cluster_news(app: AppView, event: kube::Event, then: Store)
    ensures
        leaves_the_follow(app, app.kube_told(event, then)),
{
    reveal(AppView::kube_told);
    let told = AppView { store: then, ..app };
    lemma_a_tabs_news(told, event);
    assert forall|at: usize, kind: Kind, ok: bool|
        (#[trigger] told.read_landed(app.store, at, kind, ok)).following == app.following by {
        lemma_rows_read(told, app.store, at, kind, ok);
    }
}

/// Nothing but a turn of the clock tells the worker what to follow, or changes
/// what it is believed to follow.
pub proof fn law_only_the_clock_speaks_of_logs(app: AppView, step: Step)
    requires
        !(step is Tick),
    ensures
        app.took(step).0.following == app.following,
        app.took(step).1.len() <= 1,
        forall|i: int|
            0 <= i < app.took(step).1.len() ==> !is_about_logs(#[trigger] app.took(step).1[i]),
{
    match step {
        Step::Key(key) => lemma_a_key(app, key),
        Step::Pointer(event) => lemma_a_pointer(app, event),
        Step::Paste(_) => reveal(AppView::pasted),
        Step::Azure { event, then, now, today } => lemma_azure_news(app, event, then, now, today),
        Step::Kube { event, then } => lemma_cluster_news(app, event, then),
        Step::Tab(to) => lemma_a_tab(app, to),
        Step::Kind(kind) => lemma_a_kind(app, kind),
        Step::Env(_) => reveal(AppView::with_env),
        Step::Push(button) => lemma_a_button(app, button),
        _ => {},
    }
}

// ---------------------------------------------------------------------------
// A turn of the clock
// ---------------------------------------------------------------------------

/// A filter keeps a lone item or nothing.
proof fn lemma_filter_one(action: ActionView, keep: spec_fn(ActionView) -> bool)
    ensures
        seq![action].filter(keep) == if keep(action) {
            seq![action]
        } else {
            Seq::empty()
        },
        Seq::<ActionView>::empty().filter(keep) == Seq::<ActionView>::empty(),
{
    reveal(Seq::filter);
    let one = seq![action];
    let none = Seq::<ActionView>::empty();
    assert(one.drop_last() =~= none);
    assert(none.filter(keep) =~= none);
    assert(one.filter(keep) =~= if keep(action) {
        none.push(action)
    } else {
        none
    });
    assert(none.push(action) =~= one);
}

/// What each of the three parts of a turn says, and which of them is about
/// logs.
proof fn lemma_a_turn(app: AppView, now: u64, today: Timestamp)
    ensures
        ({
            let (then, actions) = app.ticked(now, today);
            &&& then.following == app.desired()
            &&& actions.filter(|action: ActionView| is_about_logs(action)) == if app.desired()
                == app.following {
                Seq::empty()
            } else {
                seq![following_said(app.desired())]
            }
            &&& told_by(app.following, actions) == app.desired()
        }),
{
    let keep = |action: ActionView| is_about_logs(action);
    let (first, asked) = app.screen_ticked(now, today);
    let (second, followed) = first.follow_ticked();
    let (third, owned) = second.owner_ticked(now);
    let actions = asked + followed + owned;
    assert(app.ticked(now, today) == (third, actions)) by {
        reveal(AppView::ticked);
    }
    assert(first.desired() == app.desired() && first.following == app.following) by {
        reveal(AppView::screen_ticked);
        reveal(ScreenView::ticked);
    }
    assert(asked.len() <= 1 && (asked.len() == 1 ==> !is_about_logs(asked[0]))) by {
        reveal(AppView::screen_ticked);
    }
    assert(second.following == app.desired() && followed == if app.desired() == app.following {
        Seq::empty()
    } else {
        seq![following_said(app.desired())]
    }) by {
        reveal(AppView::follow_ticked);
    }
    assert(third.following == second.following && owned.len() <= 1 && (owned.len() == 1
        ==> !is_about_logs(owned[0]))) by {
        reveal(AppView::owner_ticked);
    }
    lemma_quiet(asked);
    lemma_quiet(owned);
    lemma_filter_one(following_said(app.desired()), keep);
    Seq::filter_distributes_over_add(asked, followed, keep);
    Seq::filter_distributes_over_add(asked + followed, owned, keep);
    assert(actions.filter(keep) =~= followed.filter(keep));
    lemma_told_by_all(app.following, asked, followed, owned);
}

/// A part that is not about logs leaves nothing after the filter.
proof fn lemma_quiet(part: Seq<ActionView>)
    requires
        part.len() <= 1,
        part.len() == 1 ==> !is_about_logs(part[0]),
    ensures
        part.filter(|action: ActionView| is_about_logs(action)) == Seq::<ActionView>::empty(),
        forall|told: Option<LogView>| #[trigger] told_by(told, part) == told,
{
    let keep = |action: ActionView| is_about_logs(action);
    if part.len() == 1 {
        assert(part =~= seq![part[0]]);
        lemma_filter_one(part[0], keep);
        assert(part.drop_last() =~= Seq::<ActionView>::empty());
    } else {
        assert(part =~= Seq::<ActionView>::empty());
        lemma_filter_one(ActionView::Nothing, keep);
    }
    assert forall|told: Option<LogView>| #[trigger] told_by(told, part) == told by {
        if part.len() == 1 {
            assert(told_by(told, part.drop_last()) == told);
        }
    }
}

/// Three parts in a row tell what the middle one tells.
proof fn lemma_told_by_all(
    told: Option<LogView>,
    asked: Seq<ActionView>,
    followed: Seq<ActionView>,
    owned: Seq<ActionView>,
)
    requires
        asked.len() <= 1,
        asked.len() == 1 ==> !is_about_logs(asked[0]),
        followed.len() <= 1,
        followed.len() == 1 ==> is_about_logs(followed[0]),
        owned.len() <= 1,
        owned.len() == 1 ==> !is_about_logs(owned[0]),
    ensures
        told_by(told, asked + followed + owned) == if followed.len() == 0 {
            told
        } else {
            told_by(None, followed)
        },
{
    let two = asked + followed;
    let all = two + owned;
    if owned.len() == 1 {
        assert(all.drop_last() =~= two);
        assert(told_by(told, all) == told_by(told, two));
    } else {
        assert(all =~= two);
    }
    if followed.len() == 0 {
        assert(two =~= asked);
        lemma_quiet(asked);
        assert(told_by(told, asked) == told);
    }
}

/// Over any run, a turn of the clock tells the worker what to follow, or that
/// nothing is, exactly when that is not what it was last told; it says so once
/// and says nothing else of logs, and from then on that is what it was told.
pub proof fn law_a_follow_is_said_exactly_when_it_changes(
    app: AppView,
    steps: Seq<Step>,
    now: u64,
    today: Timestamp,
)
    ensures
        ({
            let (here, told) = app.run(steps);
            let turn = Step::Tick { now, today };
            &&& here.took(turn).1.filter(|action: ActionView| is_about_logs(action))
                == if here.desired() == told {
                Seq::empty()
            } else {
                seq![following_said(here.desired())]
            }
            &&& app.run(steps.push(turn)).1 == here.desired()
        }),
{
    let (here, told) = app.run(steps);
    lemma_told_is_kept(app, steps);
    lemma_a_turn(here, now, today);
    let more = steps.push(Step::Tick { now, today });
    assert(more.drop_last() =~= steps);
}

/// What the worker was last told is what the application believes it was.
proof fn lemma_told_is_kept(app: AppView, steps: Seq<Step>)
    ensures
        app.run(steps).0.following == app.run(steps).1,
    decreases steps.len(),
{
    if steps.len() > 0 {
        lemma_told_is_kept(app, steps.drop_last());
        let (here, told) = app.run(steps.drop_last());
        match steps.last() {
            Step::Tick { now, today } => lemma_a_turn(here, now, today),
            step => {
                law_only_the_clock_speaks_of_logs(here, step);
                lemma_quiet(here.took(step).1);
            },
        }
    }
}

} // verus!
