//! What every application reached from a start is like, whatever has happened
//! to it: it has the tabs it started with, one screen for each, and on every
//! table the columns it opened with, each once. So its layout survives the
//! session file.

use vstd::prelude::*;

use super::histories::{drawn_as, with_layout, Step};
use super::list::{ListView, Row};
use super::promises::{
    alike, boxes_and_cursors, keys_differ, kind_of, law_a_run_has_back_every_tables_layout,
    same_run, saved_layout, sort_said,
};
use super::registries::RegistriesView;
use super::scope::ScopeView;
use super::screen::{Button, Tab, Target};
use super::screens::ScreenView;
use super::secrets::{answer_view, SecretsView};
use super::shell::{topmost, Focus, Menu, ShellView};
use super::state::{opening_screen, registries_at, secrets_at, tab_position, AppView};
use crate::columns::{column_at, column_named, ColumnConfig, ColumnId};
use crate::filter::{query_with_env, Env};
use crate::input::{InputView, KeyCode, KeyEvent, MouseEvent, MouseEventKind};
use crate::kube::{self, Kind};
use crate::session::{
    column_restored, columns_restored, each_once, same_columns, SessionColumnView, SessionTabView,
    SessionView,
};
use crate::store::{scope_of, AzureStore, ScopeData, Store};
use crate::timestamp::Timestamp;
use crate::worker;

verus! {

/// Two screens of one sort, over the same columns in the same order.
pub open spec fn same_shape(a: ScreenView, b: ScreenView) -> bool {
    &&& a is Scope == b is Scope
    &&& a is Secrets == b is Secrets
    &&& same_columns(saved_layout(a), saved_layout(b))
}

/// The same tabs, a tab of them open, and each with a screen of the same sort
/// over the same columns.
pub open spec fn same_tables(a: AppView, b: AppView) -> bool {
    &&& b.tabs == a.tabs
    &&& a.tab < a.tabs.len() ==> b.tab < b.tabs.len()
    &&& b.screens.len() == a.screens.len()
    &&& forall|i: int|
        0 <= i < a.screens.len() ==> same_shape(a.screens[i], #[trigger] b.screens[i])
}

proof fn lemma_same_tables(a: AppView, b: AppView, c: AppView)
    requires
        same_tables(a, b),
        same_tables(b, c),
    ensures
        same_tables(a, c),
{
    assert forall|i: int| 0 <= i < a.screens.len() implies same_shape(
        a.screens[i],
        #[trigger] c.screens[i],
    ) by {
        assert(same_shape(a.screens[i], b.screens[i]));
        assert(same_shape(b.screens[i], c.screens[i]));
        let (x, y, z) = (
            saved_layout(a.screens[i]),
            saved_layout(b.screens[i]),
            saved_layout(c.screens[i]),
        );
        assert forall|k: int| 0 <= k < x.len() implies (#[trigger] x[k]).id == z[k].id by {
            assert(x[k].id == y[k].id);
            assert(y[k].id == z[k].id);
        }
    }
}

// ---------------------------------------------------------------------------
// One list
// ---------------------------------------------------------------------------

proof fn lemma_a_look<T: Row>(list: ListView, rows: &Vec<T>, was: Option<Seq<char>>)
    ensures
        list.refiltered(rows).layout == list.layout,
        list.kept(rows, was).layout == list.layout,
{
    reveal(ListView::refiltered);
    reveal(ListView::kept);
}

proof fn lemma_a_jump<T: Row>(list: ListView, rows: &Vec<T>, name: Seq<char>)
    ensures
        list.selecting(rows, name).0.layout == list.layout,
{
    reveal(ListView::selecting);
    reveal(ListView::refiltered);
}

proof fn lemma_a_sort(list: ListView, column: ColumnId, default: ColumnId)
    ensures
        list.next_sorted().layout == list.layout,
        list.sorted_by(column, default).layout == list.layout,
{
    reveal(ListView::next_sorted);
    reveal(ListView::sorted_by);
}

proof fn lemma_a_move(list: ListView, delta: int, pages: bool, index: usize)
    ensures
        list.moved(delta, pages).layout == list.layout,
        list.clicked(index).layout == list.layout,
        list.wheeled(delta).layout == list.layout,
{
    reveal(ListView::moved);
    reveal(ListView::clicked);
    reveal(ListView::wheeled);
}

// ---------------------------------------------------------------------------
// One screen
// ---------------------------------------------------------------------------

/// Whether a screen's table has the columns it had, as they were.
spec fn untouched(a: ScreenView, b: ScreenView) -> bool {
    &&& a is Scope == b is Scope
    &&& a is Secrets == b is Secrets
    &&& saved_layout(a) == saved_layout(b)
}

proof fn lemma_a_scopes_look(
    screen: ScopeView,
    kind: Kind,
    data: ScopeData,
    was: Option<Seq<char>>,
)
    ensures
        screen.refiltered(kind, data).lists.pods.layout == screen.lists.pods.layout,
        screen.reread(kind, data, was).lists.pods.layout == screen.lists.pods.layout,
{
    lemma_a_look(screen.lists.pods, &data.pods.rows, was);
    lemma_a_look(screen.lists.pods.spoiled(), &data.pods.rows, was);
}

proof fn lemma_a_scopes_key(screen: ScopeView, focus: Focus, data: ScopeData, key: KeyEvent)
    ensures
        screen.pressed(focus, data, key).lists.pods.layout == screen.lists.pods.layout,
{
    let list = screen.list();
    lemma_a_move(list, 1, false, 0);
    lemma_a_move(list, -1, false, 0);
    lemma_a_move(list, 1, true, 0);
    lemma_a_move(list, -1, true, 0);
    lemma_a_move(list, isize::MIN as int, false, 0);
    lemma_a_move(list, isize::MAX as int, false, 0);
    lemma_a_sort(list, ColumnId::Name, ColumnId::Name);
}

proof fn lemma_a_scopes_pointer(
    screen: ScopeView,
    shell: ShellView,
    target: Target,
    over: Option<Target>,
    delta: int,
)
    ensures
        screen.clicked(shell, target).0.lists.pods.layout == screen.lists.pods.layout,
        screen.wheeled(over, delta).lists.pods.layout == screen.lists.pods.layout,
{
    let list = screen.list();
    if let Target::Row(index) = target {
        lemma_a_move(list, delta, false, index);
    }
    if let Target::Header(column) = target {
        lemma_a_sort(list, column, screen.default_sort());
    }
    lemma_a_move(list, delta, false, 0);
}

proof fn lemma_a_scopes_button(
    screen: ScopeView,
    shell: ShellView,
    context: Seq<char>,
    scope: usize,
    data: ScopeData,
    button: Button,
)
    ensures
        screen.pushed(shell, context, scope, data, button).0.lists.pods.layout
            == screen.lists.pods.layout,
{
    reveal(ScopeView::pushed);
    if let Some(event) = screen.lists.event(data) {
        let object = event.object@;
        lemma_a_jump(
            screen.lists.pods,
            &data.pods.rows,
            object.namespace + "/"@ + object.name,
        );
    }
}

proof fn lemma_a_secrets_turn(
    screen: SecretsView,
    store: AzureStore,
    now: u64,
    today: Timestamp,
    was: Option<(Seq<char>, Seq<char>)>,
)
    ensures
        screen.refiltered(store, today).layout == screen.layout,
        screen.kept(store, was, today).layout == screen.layout,
        screen.ticked(store, now).0.layout == screen.layout,
        screen.looked_away().layout == screen.layout,
{
}

proof fn lemma_a_secrets_key(
    screen: SecretsView,
    shell: ShellView,
    store: AzureStore,
    key: KeyEvent,
    target: Target,
    over: Option<Target>,
    delta: int,
)
    ensures
        screen.pressed(shell, store, key).0.layout == screen.layout,
        screen.clicked(target).layout == screen.layout,
        screen.wheeled(over, delta).layout == screen.layout,
{
}

proof fn lemma_a_registries_look(
    screen: RegistriesView,
    store: AzureStore,
    today: Timestamp,
    was: Option<(Seq<char>, Seq<char>)>,
)
    ensures
        screen.refiltered(store, today).repositories.layout == screen.repositories.layout,
        screen.kept(store, was, today).repositories.layout == screen.repositories.layout,
{
}

proof fn lemma_a_registries_turn(screen: RegistriesView, store: AzureStore, now: u64)
    ensures
        screen.ticked(store, now).0.repositories.layout == screen.repositories.layout,
        screen.looked_away().repositories.layout == screen.repositories.layout,
{
}

proof fn lemma_a_registries_key(
    screen: RegistriesView,
    shell: ShellView,
    store: AzureStore,
    key: KeyEvent,
)
    ensures
        screen.pressed(shell, store, key).0.repositories.layout == screen.repositories.layout,
{
}

proof fn lemma_a_registries_pointer(
    screen: RegistriesView,
    target: Target,
    over: Option<Target>,
    delta: int,
)
    ensures
        screen.clicked(target).repositories.layout == screen.repositories.layout,
        screen.wheeled(over, delta).repositories.layout == screen.repositories.layout,
{
}

proof fn lemma_a_screens_key(
    screen: ScreenView,
    shell: ShellView,
    data: Option<ScopeData>,
    azure: AzureStore,
    key: KeyEvent,
)
    ensures
        untouched(screen, screen.pressed(shell, data, azure, key).0),
{
    reveal(ScreenView::pressed);
    match screen {
        ScreenView::Scope(held) => {
            if let Some(data) = data {
                lemma_a_scopes_key(held, shell.focus, data, key);
            }
        },
        ScreenView::Secrets(held) => {
            lemma_a_secrets_key(held, shell, azure, key, Target::Details, None, 0);
        },
        ScreenView::Registries(held) => lemma_a_registries_key(held, shell, azure, key),
    }
}

proof fn lemma_a_screens_pointer(
    screen: ScreenView,
    shell: ShellView,
    target: Target,
    over: Option<Target>,
    delta: int,
)
    ensures
        untouched(screen, screen.clicked(shell, target).0),
        untouched(screen, screen.wheeled(over, delta)),
{
    reveal(ScreenView::clicked);
    reveal(ScreenView::wheeled);
    match screen {
        ScreenView::Scope(held) => lemma_a_scopes_pointer(held, shell, target, over, delta),
        ScreenView::Secrets(held) => {
            lemma_a_secrets_key(held, shell, arbitrary(), no_key(), target, over, delta);
        },
        ScreenView::Registries(held) => lemma_a_registries_pointer(held, target, over, delta),
    }
}

proof fn lemma_a_screens_turn(
    screen: ScreenView,
    data: Option<ScopeData>,
    azure: AzureStore,
    now: u64,
    today: Timestamp,
)
    ensures
        untouched(screen, screen.refiltered(data, azure, today)),
        untouched(screen, screen.ticked(azure, now, today).0),
        untouched(screen, screen.azure_left()),
{
    reveal(ScreenView::refiltered);
    reveal(ScreenView::ticked);
    reveal(ScreenView::azure_left);
    match screen {
        ScreenView::Scope(held) => {
            if let Some(data) = data {
                lemma_a_scopes_look(held, held.kind, data, None);
            }
        },
        ScreenView::Secrets(held) => {
            lemma_a_secrets_turn(held, azure, now, today, None);
            lemma_a_secrets_turn(held.refiltered(azure, today), azure, now, today, None);
        },
        ScreenView::Registries(held) => {
            lemma_a_registries_look(held, azure, today, None);
            lemma_a_registries_turn(held, azure, now);
            lemma_a_registries_turn(held.refiltered(azure, today), azure, now);
        },
    }
}

// ---------------------------------------------------------------------------
// The application
// ---------------------------------------------------------------------------

/// A key that was not pressed.
spec fn no_key() -> KeyEvent {
    KeyEvent { code: KeyCode::Esc, control: false, alt: false, shift: false, pressed: false }
}

/// With one screen changed but for its columns.
proof fn lemma_one_screen(app: AppView, at: int, screen: ScreenView, then: AppView)
    requires
        0 <= at < app.screens.len(),
        untouched(app.screens[at], screen),
        then.tabs == app.tabs,
        app.tab < app.tabs.len() ==> then.tab < then.tabs.len(),
        then.screens == app.screens || then.screens == app.screens.update(at, screen),
    ensures
        same_tables(app, then),
{
}

/// With nothing changed but what stands around the screens.
proof fn lemma_no_screen(app: AppView, then: AppView)
    requires
        then.tabs == app.tabs,
        app.tab < app.tabs.len() ==> then.tab < then.tabs.len(),
        then.screens == app.screens,
    ensures
        same_tables(app, then),
{
}

/// With one scope tab changed but for its columns.
proof fn lemma_one_scope(app: AppView, at: usize, screen: ScopeView, then: AppView)
    requires
        app.scope_at(at) matches Some(held) && held.lists.pods.layout == screen.lists.pods.layout,
        then.tabs == app.tabs,
        app.tab < app.tabs.len() ==> then.tab < then.tabs.len(),
        then.screens == app.screens.update(at as int, ScreenView::Scope(screen)),
    ensures
        same_tables(app, then),
{
    lemma_one_screen(app, at as int, ScreenView::Scope(screen), then);
}

proof fn lemma_a_box(app: AppView, input: InputView)
    requires
        app.tab < app.screens.len(),
    ensures
        same_tables(app, app.with_input(input)),
{
    reveal(ScreenView::with_input);
    let screen = app.screens[app.tab as int].with_input(input);
    lemma_one_screen(app, app.tab as int, screen, app.with_input(input));
}

proof fn lemma_a_clear(app: AppView, env: Option<Env>)
    ensures
        same_tables(app, app.cleared()),
        same_tables(app, app.with_env(env)),
{
    reveal(AppView::with_env);
    reveal(ScreenView::with_input);
    lemma_no_screen(app, app.with_menu(None));
    if app.tab < app.screens.len() {
        lemma_a_box(app, InputView::empty());
        let input = InputView::holding(
            query_with_env(app.screens[app.tab as int].input().text, env),
        );
        lemma_a_box(app, input);
        lemma_one_screen(
            app,
            app.tab as int,
            app.screens[app.tab as int].with_input(input),
            app.with_env(env),
        );
    } else {
        lemma_no_screen(app, app);
    }
}

proof fn lemma_azure_left(app: AppView)
    ensures
        same_tables(app, app.azure_left()),
{
    let then = app.azure_left();
    assert forall|i: int| 0 <= i < app.screens.len() implies same_shape(
        app.screens[i],
        #[trigger] then.screens[i],
    ) by {
        reveal(ScreenView::azure_left);
        assert(then.screens[i] == app.screens[i].azure_left());
    }
}

proof fn lemma_a_tab(app: AppView, to: usize)
    ensures
        same_tables(app, app.switched(to).0),
{
    reveal(AppView::switched);
    if app.tab == to || to >= app.tabs.len() {
        lemma_no_screen(app, app);
    } else {
        let left = app.scope_left();
        match app.scope_at(app.tab) {
            Some(screen) => lemma_one_scope(app, app.tab, screen.looked_away(), left),
            None => lemma_no_screen(app, left),
        }
        let there = (AppView { tab: to, ..left }).with_focus(Focus::Table);
        lemma_no_screen(left, there);
        lemma_azure_left(there);
        lemma_same_tables(app, left, there);
        lemma_same_tables(app, there, there.azure_left());
    }
}

proof fn lemma_a_kind(app: AppView, kind: Kind)
    ensures
        same_tables(app, app.with_kind(kind).0),
{
    reveal(AppView::with_kind);
    match app.scope_at(app.tab) {
        Some(screen) if screen.kind != kind => {
            lemma_one_scope(app, app.tab, screen.showing(kind), app.with_kind(kind).0);
        },
        _ => lemma_no_screen(app, app),
    }
}

proof fn lemma_a_button(app: AppView, button: Button)
    ensures
        same_tables(app, app.pushed(button).0),
{
    reveal(AppView::pushed);
    match app.parts() {
        Some(parts) => {
            lemma_a_scopes_button(
                parts.screen,
                app.shell,
                parts.context,
                app.tab,
                parts.data,
                button,
            );
            let screen = parts.screen.pushed(
                app.shell,
                parts.context,
                app.tab,
                parts.data,
                button,
            ).0;
            lemma_one_scope(app, app.tab, screen, app.pushed(button).0);
        },
        None => lemma_no_screen(app, app),
    }
}

proof fn lemma_a_screens_own_key(app: AppView, key: KeyEvent)
    ensures
        same_tables(app, app.screen_pressed(key).0),
{
    reveal(AppView::screen_pressed);
    if app.tab < app.screens.len() {
        let screen = app.screens[app.tab as int];
        lemma_a_screens_key(screen, app.shell, app.data_at(app.tab), app.store.azure, key);
        lemma_one_screen(
            app,
            app.tab as int,
            screen.pressed(app.shell, app.data_at(app.tab), app.store.azure, key).0,
            app.screen_pressed(key).0,
        );
    } else {
        lemma_no_screen(app, app);
    }
}

proof fn lemma_an_answer(app: AppView, key: KeyEvent, kind: MouseEventKind, target: Option<Target>)
    ensures
        same_tables(app, app.modal_pressed(key).0),
        same_tables(app, app.modal_clicked(kind, target).0),
{
    reveal(AppView::modal_pressed);
    reveal(AppView::modal_clicked);
    lemma_no_screen(app, app);
    if let Some(screen) = app.scope_at(app.tab) {
        let then = screen.modal_pressed(app.shell, app.tab, key).0;
        lemma_one_scope(app, app.tab, then, app.modal_pressed(key).0);
        let yes = screen.confirmed(app.shell, app.tab);
        lemma_one_scope(
            app,
            app.tab,
            yes.0,
            app.with_scope(app.tab, yes.0).with_shell(yes.1),
        );
        lemma_one_scope(
            app,
            app.tab,
            screen.dismissed(),
            app.with_scope(app.tab, screen.dismissed()),
        );
    }
}

proof fn lemma_a_menu(app: AppView, menu: Menu, at: usize, code: KeyCode, target: Option<Target>)
    ensures
        same_tables(app, app.menu_pressed(menu, at, code).0),
        same_tables(app, app.menu_clicked(menu, target).0),
{
    reveal(AppView::menu_pressed);
    reveal(AppView::menu_clicked);
    let closed = app.with_menu(None);
    lemma_no_screen(app, closed);
    assert forall|env: Option<Env>| same_tables(app, #[trigger] app.with_env(env)) by {
        lemma_a_clear(app, env);
    }
    assert forall|kind: Kind| same_tables(app, #[trigger] closed.with_kind(kind).0) by {
        lemma_a_kind(closed, kind);
        lemma_same_tables(app, closed, closed.with_kind(kind).0);
    }
}

proof fn lemma_a_scope_tabs_deeds(app: AppView)
    ensures
        same_tables(app, app.to_events().0),
        same_tables(app, app.rollout_asked()),
        same_tables(app, app.previous_toggled()),
        same_tables(app, app.container_changed()),
        same_tables(app, app.zoomed()),
        same_tables(app, app.refreshed().0),
{
    reveal(AppView::to_events);
    reveal(AppView::rollout_asked);
    reveal(AppView::previous_toggled);
    reveal(AppView::container_changed);
    reveal(AppView::zoomed);
    reveal(AppView::refreshed);
    lemma_azure_left(app);
    lemma_no_screen(app, app);
    if let Some(parts) = app.parts() {
        let screen = parts.screen;
        let data = parts.data;
        lemma_one_scope(app, app.tab, screen.to_events(data), app.to_events().0);
        lemma_one_scope(
            app,
            app.tab,
            screen.rollout_asked(app.shell, data).0,
            app.rollout_asked(),
        );
        lemma_one_scope(
            app,
            app.tab,
            screen.previous_toggled(app.shell).0,
            app.previous_toggled(),
        );
        lemma_one_scope(
            app,
            app.tab,
            screen.container_changed(app.shell, data).0,
            app.container_changed(),
        );
        lemma_one_scope(
            app,
            app.tab,
            ScopeView { pane: screen.pane.zoomed(), ..screen },
            app.zoomed(),
        );
    } else {
        lemma_no_screen(app, app.to_events().0);
    }
    if app.tab < app.tabs.len() && app.tabs[app.tab as int] is Scope {
        match app.scope_at(app.tab) {
            Some(screen) => lemma_one_scope(app, app.tab, screen.refreshed(), app.refreshed().0),
            None => lemma_no_screen(app, app.refreshed().0),
        }
    }
}

proof fn lemma_an_escape(app: AppView, key: KeyEvent)
    ensures
        same_tables(app, app.escaped(key).0),
{
    reveal(AppView::escaped);
    lemma_no_screen(app, app);
    lemma_a_clear(app, None);
    lemma_a_screens_own_key(app.cleared(), key);
    lemma_same_tables(app, app.cleared(), app.cleared().screen_pressed(key).0);
    if let Some(screen) = app.scope_at(app.tab) {
        let bare = screen.with_filter(InputView::empty());
        lemma_one_scope(app, app.tab, bare, app.with_scope(app.tab, bare));
        let closed = app.with_scope(app.tab, screen.pane_closed()).with_focus(
            Focus::Table,
        );
        lemma_one_scope(app, app.tab, screen.pane_closed(), closed);
    }
}

proof fn lemma_a_scope_tabs_key(app: AppView, kind: Kind, key: KeyEvent)
    ensures
        same_tables(app, app.scope_pressed(kind, key).0),
{
    reveal(AppView::scope_pressed);
    lemma_no_screen(app, app);
    lemma_no_screen(
        app,
        app.with_shell(app.shell.saying("That is a pod's key: p for the pods"@)),
    );
    lemma_a_scope_tabs_deeds(app);
    lemma_a_screens_own_key(app, key);
    assert forall|kind: Kind| same_tables(app, #[trigger] app.with_kind(kind).0) by {
        lemma_a_kind(app, kind);
    }
    assert forall|button: Button| same_tables(app, #[trigger] app.pushed(button).0) by {
        lemma_a_button(app, button);
    }
}

proof fn lemma_a_command(app: AppView, key: KeyEvent)
    ensures
        same_tables(app, app.commanded(key).0),
{
    reveal(AppView::commanded);
    lemma_no_screen(app, app);
    assert forall|shell: ShellView| same_tables(app, #[trigger] app.with_shell(shell)) by {
        lemma_no_screen(app, app.with_shell(shell));
    }
    assert forall|focus: Focus| same_tables(app, #[trigger] app.with_focus(focus)) by {
        lemma_no_screen(app, app.with_focus(focus));
    }
    assert forall|to: usize| same_tables(app, #[trigger] app.switched(to).0) by {
        lemma_a_tab(app, to);
    }
    lemma_a_scope_tabs_deeds(app);
    lemma_an_escape(app, key);
    lemma_a_screens_own_key(app, key);
    if let Some(kind) = app.kind() {
        lemma_a_scope_tabs_key(app, kind, key);
    }
}

proof fn lemma_a_boxs_key(app: AppView, key: KeyEvent, text: Seq<char>)
    ensures
        same_tables(app, app.search_pressed(key)),
        same_tables(app, app.pane_search_pressed(key)),
        same_tables(app, app.pasted(text)),
{
    reveal(AppView::search_pressed);
    reveal(AppView::pane_search_pressed);
    reveal(AppView::pasted);
    lemma_no_screen(app, app);
    lemma_no_screen(app, app.with_focus(Focus::Table));
    lemma_no_screen(app, app.with_focus(Focus::Details));
    if app.tab < app.screens.len() {
        lemma_a_box(app, app.screens[app.tab as int].input().pressed(key));
        lemma_a_box(app, app.screens[app.tab as int].input().pasted(text));
    }
    if let Some(screen) = app.scope_at(app.tab) {
        let typed = screen.with_filter(screen.pane.filter.pressed(key)).pane_scrolled(0);
        lemma_one_scope(app, app.tab, typed, app.with_scope(app.tab, typed));
        let pasted = screen.with_filter(screen.pane.filter.pasted(text));
        lemma_one_scope(app, app.tab, pasted, app.with_scope(app.tab, pasted));
    }
}

proof fn lemma_a_key(app: AppView, key: KeyEvent)
    ensures
        same_tables(app, app.pressed(key).0),
{
    reveal(AppView::pressed);
    lemma_no_screen(app, app);
    lemma_no_screen(app, app.with_shell(ShellView { help_open: false, ..app.shell }));
    lemma_a_command(app, key);
    lemma_a_boxs_key(app, key, Seq::empty());
    lemma_an_answer(app, key, MouseEventKind::Other, None);
    if let Some((menu, at)) = app.shell.menu {
        lemma_a_menu(app, menu, at, key.code, None);
    }
}

proof fn lemma_a_click(app: AppView, target: Target)
    ensures
        same_tables(app, app.clicked(target).0),
{
    reveal(AppView::clicked);
    lemma_a_clear(app, None);
    assert forall|then: AppView|
        then.tabs == app.tabs && then.tab == app.tab && #[trigger] then.screens
            == app.screens implies same_tables(app, then) by {
        lemma_no_screen(app, then);
    }
    assert forall|to: usize| same_tables(app, #[trigger] app.switched(to).0) by {
        lemma_a_tab(app, to);
    }
    assert forall|kind: Kind| same_tables(app, #[trigger] app.with_kind(kind).0) by {
        lemma_a_kind(app, kind);
    }
    assert forall|button: Button| same_tables(app, #[trigger] app.pushed(button).0) by {
        lemma_a_button(app, button);
    }
    let then = app.with_focus(Focus::Table);
    if app.tab < app.screens.len() {
        let screen = app.screens[app.tab as int];
        lemma_a_screens_pointer(screen, then.shell, target, None, 0);
        let (clicked, shell) = screen.clicked(then.shell, target);
        lemma_one_screen(
            app,
            app.tab as int,
            clicked,
            then.with_screen(clicked).with_shell(shell),
        );
    }
}

proof fn lemma_a_wheel(app: AppView, target: Option<Target>, delta: int)
    ensures
        same_tables(app, app.wheeled(target, delta)),
{
    if app.tab < app.screens.len() {
        let screen = app.screens[app.tab as int];
        lemma_a_screens_pointer(screen, app.shell, Target::Details, target, delta);
        lemma_one_screen(
            app,
            app.tab as int,
            screen.wheeled(target, delta),
            app.wheeled(target, delta),
        );
    } else {
        lemma_no_screen(app, app);
    }
}

proof fn lemma_a_pointer(app: AppView, event: MouseEvent)
    ensures
        same_tables(app, app.pointed(event).0),
{
    reveal(AppView::pointed);
    let target = topmost(app.shell.regions, event.column, event.row);
    lemma_no_screen(app, app);
    lemma_an_answer(app, no_key(), event.kind, target);
    lemma_a_wheel(app, target, 3);
    lemma_a_wheel(app, target, -3);
    if let Some((menu, at)) = app.shell.menu {
        lemma_a_menu(app, menu, at, KeyCode::Esc, target);
    }
    if let Some(target) = target {
        lemma_a_click(app, target);
    }
}

proof fn lemma_azure_at(screens: Seq<ScreenView>)
    ensures
        0 <= secrets_at(screens) <= screens.len(),
        secrets_at(screens) < screens.len() ==> screens[secrets_at(
            screens,
        )] is Secrets,
        0 <= registries_at(screens) <= screens.len(),
        registries_at(screens) < screens.len() ==> screens[
            registries_at(screens)] is Registries,
    decreases screens.len(),
{
    if screens.len() > 0 {
        lemma_azure_at(screens.skip(1));
    }
}

proof fn lemma_azure_news(
    app: AppView,
    event: worker::Event,
    then: AzureStore,
    now: u64,
    today: Timestamp,
)
    ensures
        same_tables(app, app.azure_told(event, then, now, today).0),
{
    reveal(AppView::azure_told);
    let was = app.store.azure;
    let told = app.with_azure(then);
    lemma_no_screen(app, told);
    lemma_azure_at(app.screens);
    let secrets = secrets_at(told.screens);
    let registries = registries_at(told.screens);
    assert(same_tables(app, told.secrets_reread(was, today))) by {
        reveal(AppView::secrets_reread);
        if secrets < told.screens.len() {
            let screen = told.screens[secrets]->Secrets_0;
            lemma_a_secrets_turn(screen.spoiled(), then, now, today, screen.identity(was));
            lemma_one_screen(
                app,
                secrets,
                ScreenView::Secrets(screen.spoiled().kept(then, screen.identity(was), today)),
                told.secrets_reread(was, today),
            );
        }
    }
    assert(same_tables(app, told.repositories_reread(was, today)) && same_tables(
        app,
        told.detail_reread(),
    )) by {
        reveal(AppView::repositories_reread);
        reveal(AppView::detail_reread);
        if registries < told.screens.len() {
            let screen = told.screens[registries]->Registries_0;
            lemma_a_registries_look(screen.spoiled(), then, today, screen.identity(was));
            lemma_one_screen(
                app,
                registries,
                ScreenView::Registries(screen.spoiled().kept(then, screen.identity(was), today)),
                told.repositories_reread(was, today),
            );
            lemma_one_screen(
                app,
                registries,
                ScreenView::Registries(screen.spoiled()),
                told.detail_reread(),
            );
        }
    }
    if let worker::Event::Value { vault, name, result } = event {
        let answer = answer_view(result);
        assert(same_tables(app, told.value_come(vault@, name@, answer, now).0)) by {
            reveal(AppView::value_come);
            if secrets < told.screens.len() {
                let screen = told.screens[secrets]->Secrets_0;
                lemma_one_screen(
                    app,
                    secrets,
                    ScreenView::Secrets(
                        screen.answered(told.shell, then, vault@, name@, answer, now).0,
                    ),
                    told.value_come(vault@, name@, answer, now).0,
                );
            }
        }
    }
}

proof fn lemma_rows_read(app: AppView, was: Store, at: usize, kind: Kind, ok: bool)
    ensures
        same_tables(app, app.read_landed(was, at, kind, ok)),
{
    reveal(AppView::rows_read);
    reveal(AppView::read_failed);
    if ok && at < was.scopes@.len() && app.scope_at(at) is Some {
        let screen = app.scope_at(at)->0;
        let data = app.store.scopes@[at as int];
        let name = screen.lists.identity(kind, was.scopes@[at as int]);
        lemma_a_scopes_look(screen, kind, data, name);
        lemma_one_scope(
            app,
            at,
            screen.reread(kind, data, name),
            app.read_landed(was, at, kind, ok),
        );
    } else {
        lemma_no_screen(app, app.read_landed(was, at, kind, ok));
    }
}

proof fn lemma_a_tabs_news(app: AppView, event: kube::Event)
    ensures
        same_tables(app, app.screen_told(event).0),
{
    reveal(AppView::screen_told);
    let at = scope_of(event);
    let then = app.screen_told(event).0;
    match app.scope_at(at) {
        None => lemma_no_screen(app, app),
        Some(screen) => {
            if then.screens == app.screens {
                lemma_no_screen(app, then);
            } else {
                let now = then.screens[at as int]->Scope_0;
                lemma_one_scope(app, at, now, then);
            }
        },
    }
}

proof fn lemma_cluster_news(app: AppView, event: kube::Event, then: Store)
    ensures
        same_tables(app, app.kube_told(event, then).0),
{
    reveal(AppView::kube_told);
    let told = AppView { store: then, ..app };
    lemma_no_screen(app, told);
    assert forall|at: usize, kind: Kind, ok: bool|
        same_tables(app, #[trigger] told.read_landed(app.store, at, kind, ok)) by {
        lemma_rows_read(told, app.store, at, kind, ok);
        lemma_same_tables(app, told, told.read_landed(app.store, at, kind, ok));
    }
    lemma_a_tabs_news(told, event);
    lemma_same_tables(app, told, told.screen_told(event).0);
}

proof fn lemma_a_look_at_all(app: AppView, today: Timestamp)
    ensures
        same_tables(app, app.rows_settled(today)),
{
    if app.tab < app.screens.len() {
        let screen = app.screens[app.tab as int];
        lemma_a_screens_turn(screen, app.data_at(app.tab), app.store.azure, 0, today);
        lemma_one_screen(
            app,
            app.tab as int,
            screen.refiltered(app.data_at(app.tab), app.store.azure, today),
            app.rows_settled(today),
        );
    } else {
        lemma_no_screen(app, app);
    }
}

proof fn lemma_a_turn(app: AppView, now: u64, today: Timestamp)
    ensures
        same_tables(app, app.ticked(now, today).0),
{
    reveal(AppView::ticked);
    let first = app.screen_ticked(now, today).0;
    let second = first.follow_ticked().0;
    let third = second.owner_ticked(now).0;
    assert(same_tables(app, first)) by {
        reveal(AppView::screen_ticked);
        if app.tab < app.screens.len() {
            let screen = app.screens[app.tab as int];
            lemma_a_screens_turn(screen, None, app.store.azure, now, today);
            lemma_one_screen(
                app,
                app.tab as int,
                screen.ticked(app.store.azure, now, today).0,
                first,
            );
        } else {
            lemma_no_screen(app, first);
        }
    }
    assert(same_tables(first, second)) by {
        reveal(AppView::follow_ticked);
        match first.scope_at(first.tab) {
            Some(screen) if first.desired() != first.following => {
                lemma_one_scope(first, first.tab, screen.following(first.desired()), second);
            },
            _ => lemma_no_screen(first, second),
        }
    }
    assert(same_tables(second, third)) by {
        reveal(AppView::owner_ticked);
        if third.screens == second.screens {
            lemma_no_screen(second, third);
        } else {
            let screen = third.screens[second.tab as int]->Scope_0;
            lemma_one_scope(second, second.tab, screen, third);
        }
    }
    lemma_same_tables(app, first, second);
    lemma_same_tables(app, second, third);
}

// ---------------------------------------------------------------------------
// The session file
// ---------------------------------------------------------------------------

proof fn lemma_a_place(columns: Seq<ColumnConfig>, id: ColumnId)
    ensures
        0 <= column_at(columns, id) <= columns.len(),
    decreases columns.len(),
{
    if columns.len() > 0 && columns[0].id != id {
        lemma_a_place(columns.skip(1), id);
    }
}

proof fn lemma_columns_stay(columns: Seq<ColumnConfig>, held: Seq<SessionColumnView>)
    ensures
        same_columns(columns, columns_restored(columns, held)),
    decreases held.len(),
{
    if held.len() > 0 {
        let before = columns_restored(columns, held.drop_last());
        lemma_columns_stay(columns, held.drop_last());
        let then = column_restored(before, held.last());
        if let Some(id) = column_named(held.last().key) {
            lemma_a_place(before, id);
        }
        assert forall|i: int| 0 <= i < columns.len() implies (#[trigger] columns[i]).id
            == then[i].id by {
            assert(columns[i].id == before[i].id);
        }
    }
}

proof fn lemma_a_restored_screen(screen: ScreenView, held: SessionTabView)
    ensures
        same_shape(screen, screen.restored(held)),
{
    lemma_columns_stay(saved_layout(screen), held.columns);
}

proof fn lemma_a_restored_run(app: AppView, session: SessionView)
    requires
        app.tabs.len() <= usize::MAX,
    ensures
        same_tables(app, app.restored(session)),
{
    let then = app.restored(session);
    assert forall|i: int| 0 <= i < app.screens.len() implies same_shape(
        app.screens[i],
        #[trigger] then.screens[i],
    ) by {
        if i < app.tabs.len() {
            if let Some(held) = session.held(app.tabs[i].key_text()) {
                lemma_a_restored_screen(app.screens[i], held);
            }
        }
    }
    if let Some(key) = session.tab {
        lemma_a_tabs_place(app.tabs, key);
    }
}

proof fn lemma_a_tabs_place(tabs: Seq<Tab>, key: Seq<char>)
    ensures
        0 <= tab_position(tabs, key) <= tabs.len(),
    decreases tabs.len(),
{
    if tabs.len() > 0 && tabs[0].key_text() != key {
        lemma_a_tabs_place(tabs.skip(1), key);
    }
}

// ---------------------------------------------------------------------------
// Every run
// ---------------------------------------------------------------------------

/// Whatever happens to an application, it has the tabs it had, with one of them
/// open, and each has a screen of the sort it had, over the columns it had.
pub proof fn law_every_step_keeps_the_tables(app: AppView, step: Step)
    requires
        app.tabs.len() <= usize::MAX,
    ensures
        same_tables(app, app.took(step).0),
{
    match step {
        Step::Key(key) => lemma_a_key(app, key),
        Step::Pointer(event) => lemma_a_pointer(app, event),
        Step::Paste(text) => lemma_a_boxs_key(app, no_key(), text),
        Step::Azure { event, then, now, today } => lemma_azure_news(app, event, then, now, today),
        Step::Kube { event, then } => lemma_cluster_news(app, event, then),
        Step::Look(today) => lemma_a_look_at_all(app, today),
        Step::Restore(session) => lemma_a_restored_run(app, session),
        Step::Tab(to) => lemma_a_tab(app, to),
        Step::Kind(kind) => lemma_a_kind(app, kind),
        Step::Env(env) => lemma_a_clear(app, env),
        Step::Clear => lemma_a_clear(app, None),
        Step::Push(button) => lemma_a_button(app, button),
        Step::Drawn { shell, screen } => {
            if app.tab < app.screens.len() && drawn_as(app.screens[app.tab as int], screen) {
                lemma_one_screen(app, app.tab as int, screen, app.took(step).0);
            } else {
                lemma_no_screen(app, app.took(step).0);
            }
        },
        Step::Columns { at, columns } => {
            if 0 <= at < app.screens.len() && same_columns(saved_layout(app.screens[at]), columns) {
                let screen = with_layout(app.screens[at], columns);
                assert(saved_layout(screen) == columns);
            }
        },
        Step::Tick { now, today } => lemma_a_turn(app, now, today),
    }
}

/// So it is over any run.
pub proof fn law_every_run_keeps_the_tables(app: AppView, steps: Seq<Step>)
    requires
        app.tabs.len() <= usize::MAX,
    ensures
        same_tables(app, app.run(steps).0),
    decreases steps.len(),
{
    if steps.len() == 0 {
        lemma_no_screen(app, app);
    } else {
        law_every_run_keeps_the_tables(app, steps.drop_last());
        let here = app.run(steps.drop_last()).0;
        law_every_step_keeps_the_tables(here, steps.last());
        lemma_same_tables(app, here, app.run(steps).0);
    }
}

/// A table opens with each of its columns once.
pub proof fn law_a_table_opens_with_each_column_once(tab: Tab)
    ensures
        each_once(saved_layout(opening_screen(tab))),
{
}

/// Every application reached from a start, and every start over the same tabs,
/// is a run of the same tabs over the same columns.
pub proof fn law_every_run_over_the_same_tabs_is_alike(
    tabs: Seq<Tab>,
    a: AppView,
    done: Seq<Step>,
    b: AppView,
    doing: Seq<Step>,
)
    requires
        tabs.len() > 0,
        keys_differ(tabs),
        a.is_fresh(tabs),
        b.is_fresh(tabs),
    ensures
        same_run(a.run(done).0, b.run(doing).0),
{
    let (x, y) = (a.run(done).0, b.run(doing).0);
    law_every_run_keeps_the_tables(a, done);
    law_every_run_keeps_the_tables(b, doing);
    assert forall|i: int| 0 <= i < x.tabs.len() implies alike(#[trigger] x.screens[i], y.screens[i]) by {
        let opened = opening_screen(tabs[i]);
        assert(a.screens[i] == opened && b.screens[i] == opened);
        assert(same_shape(a.screens[i], x.screens[i]));
        assert(same_shape(b.screens[i], y.screens[i]));
        law_a_table_opens_with_each_column_once(tabs[i]);
        let (o, p, q) = (
            saved_layout(opened),
            saved_layout(x.screens[i]),
            saved_layout(y.screens[i]),
        );
        assert forall|k: int| 0 <= k < p.len() implies (#[trigger] p[k]).id == q[k].id by {
            assert(o[k].id == p[k].id);
            assert(o[k].id == q[k].id);
        }
        assert forall|k: int, l: int| 0 <= k < l < p.len() implies (#[trigger] p[k]).id != (
        #[trigger] p[l]).id by {
            assert(o[k].id == p[k].id);
            assert(o[l].id == p[l].id);
            assert(o[k].id != o[l].id);
        }
    }
}

/// A layout survives a round trip through the file. Whatever has happened to
/// one application since it started, and to another over the same tabs: the
/// second, given back what the first leaves, has the first's tab open, and on
/// every table its sort, its direction and its columns, and on every scope tab
/// its kind. Its boxes and its cursors are its own.
pub proof fn law_every_run_has_back_every_tables_layout(
    tabs: Seq<Tab>,
    a: AppView,
    done: Seq<Step>,
    b: AppView,
    doing: Seq<Step>,
)
    requires
        tabs.len() > 0,
        keys_differ(tabs),
        a.is_fresh(tabs),
        b.is_fresh(tabs),
    ensures
        ({
            let left = a.run(done).0;
            let here = b.run(doing).0;
            let then = here.restored(left.saved());
            &&& then.tab == left.tab
            &&& then.screens.len() == tabs.len()
            &&& left.screens.len() == tabs.len()
            &&& forall|i: int|
                0 <= i < tabs.len() ==> {
                    &&& kind_of(#[trigger] then.screens[i]) == kind_of(left.screens[i])
                    &&& sort_said(then.screens[i]) == sort_said(left.screens[i])
                    &&& saved_layout(then.screens[i]) == saved_layout(left.screens[i])
                    &&& boxes_and_cursors(then.screens[i]) == boxes_and_cursors(here.screens[i])
                }
        }),
{
    law_every_run_keeps_the_tables(a, done);
    law_every_run_over_the_same_tabs_is_alike(tabs, a, done, b, doing);
    law_a_run_has_back_every_tables_layout(a.run(done).0, b.run(doing).0);
}

} // verus!
