//! What the application promises as a whole.

use vstd::prelude::*;

use super::cursor::ListCursor;
use super::list::ListView;
use super::registries::TableView;
use super::scope::ScopeView;
use super::screen::{ActionView, Tab, Target};
use super::screens::ScreenView;
use super::secrets::SecretsView;
use super::shell::{Focus, ShellView};
use super::state::{menu_lines, tab_position, AppView};
use super::toolbar::law_no_button_changes_the_cluster;
use crate::input::{InputView, KeyCode, KeyEvent, MouseEvent};
use crate::kube::{self, law_a_kind_survives_the_session_file, Kind};
use crate::session::{
    each_once, law_a_sort_survives_the_session_file, law_columns_survive_the_session_file,
    same_columns, SessionTabView,
};
use crate::store::Store;
use crate::timestamp::Timestamp;

verus! {

// ---------------------------------------------------------------------------
// Keys
// ---------------------------------------------------------------------------

/// `Ctrl-C` leaves, whatever is open.
pub proof fn law_control_c_always_leaves(app: AppView, key: KeyEvent)
    requires
        key.pressed,
        key.control,
        key.code == KeyCode::Char('c'),
    ensures
        app.pressed(key) == (app, ActionView::Quit),
{
    reveal(AppView::pressed);
}

/// The help takes every other key, and all that one does is close it.
pub proof fn law_the_help_takes_every_key(app: AppView, key: KeyEvent)
    requires
        key.pressed,
        app.shell.help_open,
        !(key.control && key.code == KeyCode::Char('c')),
    ensures
        app.pressed(key) == (
            app.with_shell(ShellView { help_open: false, ..app.shell }),
            ActionView::Nothing,
        ),
{
    reveal(AppView::pressed);
}

/// A key that comes up, or repeats, does nothing.
pub proof fn law_only_a_press_counts(app: AppView, key: KeyEvent)
    requires
        !key.pressed,
    ensures
        app.pressed(key) == (app, ActionView::Nothing),
{
    reveal(AppView::pressed);
}

/// While a box has focus, a key that does not leave it is typed: the tab, the
/// focus and the store stay, and nothing is asked of the run loop.
pub proof fn law_a_box_with_focus_takes_every_key(app: AppView, key: KeyEvent)
    requires
        key.pressed,
        !key.control,
        !app.shell.help_open,
        !app.asks(),
        app.shell.menu is None,
        app.shell.focus == Focus::Search,
        app.tab < app.screens.len(),
        key.code != KeyCode::Enter,
        key.code != KeyCode::Esc,
        key.code != KeyCode::Tab,
    ensures
        app.pressed(key) == (
            app.with_input(app.screens[app.tab as int].input().pressed(key)),
            ActionView::Nothing,
        ),
{
    reveal(AppView::pressed);
    reveal(AppView::search_pressed);
}

/// Whether the run loop is asked to change a cluster.
pub open spec fn changes_a_cluster(action: ActionView) -> bool {
    action matches ActionView::Kube(request) && request.changes_the_cluster()
}

proof fn lemma_a_screens_key_changes_no_cluster(app: AppView, key: KeyEvent)
    ensures
        !changes_a_cluster(app.screen_pressed(key).1),
{
    reveal(AppView::screen_pressed);
    reveal(ScreenView::pressed);
}

proof fn lemma_no_button_changes_a_cluster(app: AppView, button: super::screen::Button)
    ensures
        !changes_a_cluster(app.pushed(button).1),
{
    reveal(AppView::pushed);
    if let Some(parts) = app.parts() {
        law_no_button_changes_the_cluster(
            parts.screen,
            app.shell,
            parts.context,
            app.tab,
            parts.data,
            button,
        );
    }
}

proof fn lemma_no_command_changes_a_cluster(app: AppView, key: KeyEvent)
    ensures
        !changes_a_cluster(app.commanded(key).1),
{
    reveal(AppView::commanded);
    reveal(AppView::switched);
    reveal(AppView::escaped);
    reveal(AppView::refreshed);
    reveal(AppView::scope_pressed);
    reveal(AppView::with_kind);
    reveal(AppView::to_events);
    reveal(AppView::name_copied);
    reveal(AppView::line_copied);
    lemma_a_screens_key_changes_no_cluster(app, key);
    lemma_a_screens_key_changes_no_cluster(app.cleared(), key);
    assert forall|button: super::screen::Button| !changes_a_cluster(
        #[trigger] app.pushed(button).1,
    ) by {
        lemma_no_button_changes_a_cluster(app, button);
    }
}

/// Nothing the keys or the pointer do changes a cluster, but for a yes to a
/// question that stands on the screen.
pub proof fn law_a_cluster_changes_only_on_a_yes(app: AppView, key: KeyEvent, event: MouseEvent)
    requires
        !app.asks(),
    ensures
        !changes_a_cluster(app.pressed(key).1),
        !changes_a_cluster(app.pointed(event).1),
{
    reveal(AppView::pressed);
    reveal(AppView::pointed);
    reveal(AppView::menu_pressed);
    reveal(AppView::menu_clicked);
    reveal(AppView::clicked);
    reveal(AppView::with_kind);
    reveal(AppView::switched);
    lemma_no_command_changes_a_cluster(app, key);
    assert forall|button: super::screen::Button| !changes_a_cluster(
        #[trigger] app.pushed(button).1,
    ) by {
        lemma_no_button_changes_a_cluster(app, button);
    }
}

/// Nor does the clock.
pub proof fn law_the_clock_changes_no_cluster(app: AppView, now: u64, today: Timestamp)
    ensures
        forall|i: int|
            0 <= i < app.ticked(now, today).1.len() ==> !changes_a_cluster(
                #[trigger] app.ticked(now, today).1[i],
            ),
{
    reveal(AppView::ticked);
    reveal(AppView::screen_ticked);
    reveal(AppView::follow_ticked);
    reveal(AppView::owner_ticked);
}

// ---------------------------------------------------------------------------
// Tabs
// ---------------------------------------------------------------------------

/// Whether a screen shows a value or waits for one.
pub open spec fn shows_a_value(screen: ScreenView) -> bool {
    match screen {
        ScreenView::Scope(screen) => screen.value.revealed is Some || screen.value.reading is Some,
        ScreenView::Secrets(screen) => screen.revealed is Some || screen.reading is Some,
        ScreenView::Registries(_) => false,
    }
}

/// Another tab leaves no value behind: neither on the tab that was left nor on
/// an Azure tab, and none is wanted there when it lands.
pub proof fn law_leaving_a_tab_hides_its_value(app: AppView, to: usize)
    requires
        app.tab != to,
        to < app.tabs.len(),
    ensures
        app.switched(to).0.tab == to,
        app.switched(to).0.screens.len() == app.screens.len(),
        forall|i: int|
            0 <= i < app.screens.len() && (i == app.tab || !(app.screens[i] is Scope))
                ==> !shows_a_value(#[trigger] app.switched(to).0.screens[i]),
{
    reveal(AppView::switched);
    reveal(ScreenView::azure_left);
}

/// The next tab and then the one before it is the tab again.
pub proof fn law_the_tabs_go_round(app: AppView)
    requires
        app.tab < app.tabs.len() <= usize::MAX,
    ensures
        app.stepped(1).0.stepped(-1).0.tab == app.tab,
        app.stepped(-1).0.stepped(1).0.tab == app.tab,
{
    reveal(AppView::switched);
    let count = app.tabs.len() as int;
    let tab = app.tab as int;
    let next = (tab + 1) % count;
    let back = (tab - 1) % count;
    if tab + 1 == count {
        vstd::arithmetic::div_mod::lemma_mod_self_0(count);
        assert(next == 0);
        vstd::arithmetic::div_mod::lemma_mod_add_multiples_vanish(-1, count);
        vstd::arithmetic::div_mod::lemma_small_mod((count - 1) as nat, count as nat);
        assert((next - 1) % count == tab);
    } else {
        vstd::arithmetic::div_mod::lemma_small_mod((tab + 1) as nat, count as nat);
        vstd::arithmetic::div_mod::lemma_small_mod(tab as nat, count as nat);
        assert((next - 1) % count == tab);
    }
    if tab == 0 {
        vstd::arithmetic::div_mod::lemma_mod_add_multiples_vanish(-1, count);
        vstd::arithmetic::div_mod::lemma_small_mod((count - 1) as nat, count as nat);
        assert(back == count - 1);
        vstd::arithmetic::div_mod::lemma_mod_self_0(count);
        assert((back + 1) % count == tab);
    } else {
        vstd::arithmetic::div_mod::lemma_small_mod((tab - 1) as nat, count as nat);
        vstd::arithmetic::div_mod::lemma_small_mod(tab as nat, count as nat);
        assert((back + 1) % count == tab);
    }
    vstd::arithmetic::div_mod::lemma_mod_bound(tab + 1, count);
    vstd::arithmetic::div_mod::lemma_mod_bound(tab - 1, count);
    assert(app.stepped(1).0.tab == next);
    assert(app.stepped(-1).0.tab == back);
}

/// A click puts the focus where it landed.
pub proof fn law_a_click_puts_focus_where_it_landed(app: AppView, row: usize)
    requires
        app.tab < app.screens.len(),
    ensures
        app.clicked(Target::Row(row)).0.shell.focus == Focus::Table,
        app.clicked(Target::Details).0.shell.focus == Focus::Details,
        app.clicked(Target::TextPane).0.shell.focus == Focus::Details,
        app.clicked(Target::SearchField).0.shell.focus == Focus::Search,
{
    reveal(AppView::clicked);
    reveal(ScreenView::clicked);
}

/// Whether the open menu, where there is one, is on one of its lines.
pub open spec fn menu_kept(shell: ShellView) -> bool {
    shell.menu matches Some((menu, at)) ==> at < menu_lines(menu)
}

proof fn lemma_a_button_leaves_the_menu(app: AppView, button: super::screen::Button)
    ensures
        app.pushed(button).0.shell.menu == app.shell.menu,
{
    reveal(AppView::pushed);
    reveal(ScopeView::pushed);
}

proof fn lemma_a_screens_key_leaves_the_menu(app: AppView, key: KeyEvent)
    ensures
        app.screen_pressed(key).0.shell.menu == app.shell.menu,
{
    reveal(AppView::screen_pressed);
    reveal(ScreenView::pressed);
}

proof fn lemma_a_prompt_leaves_the_menu(app: AppView)
    ensures
        app.rollout_asked().shell.menu == app.shell.menu,
        app.previous_toggled().shell.menu == app.shell.menu,
        app.container_changed().shell.menu == app.shell.menu,
        app.zoomed().shell.menu == app.shell.menu,
        app.to_events().0.shell.menu == app.shell.menu,
{
    reveal(AppView::rollout_asked);
    reveal(AppView::previous_toggled);
    reveal(AppView::container_changed);
    reveal(AppView::zoomed);
    reveal(AppView::to_events);
}

proof fn lemma_a_switch_leaves_the_menu(app: AppView, to: usize, kind: Kind)
    ensures
        app.switched(to).0.shell.menu == app.shell.menu,
        app.with_kind(kind).0.shell.menu == app.shell.menu,
        app.refreshed().0.shell.menu == app.shell.menu,
{
    reveal(AppView::switched);
    reveal(AppView::with_kind);
    reveal(AppView::refreshed);
}

proof fn lemma_an_escape_leaves_the_menu(app: AppView, key: KeyEvent)
    ensures
        app.escaped(key).0.shell.menu == app.shell.menu,
{
    reveal(AppView::escaped);
    lemma_a_screens_key_leaves_the_menu(app.cleared(), key);
}

proof fn lemma_a_scopes_key_leaves_the_menu(app: AppView, kind: Kind, key: KeyEvent)
    ensures
        app.scope_pressed(kind, key).0.shell.menu == app.shell.menu,
{
    reveal(AppView::scope_pressed);
    lemma_a_screens_key_leaves_the_menu(app, key);
    lemma_a_prompt_leaves_the_menu(app);
    assert forall|button: super::screen::Button|
        (#[trigger] app.pushed(button)).0.shell.menu == app.shell.menu by {
        lemma_a_button_leaves_the_menu(app, button);
    }
    assert forall|kind: Kind| (#[trigger] app.with_kind(kind)).0.shell.menu == app.shell.menu by {
        lemma_a_switch_leaves_the_menu(app, 0, kind);
    }
}

proof fn lemma_a_command_leaves_the_menu(app: AppView, key: KeyEvent)
    ensures
        app.commanded(key).0.shell.menu == app.shell.menu,
{
    reveal(AppView::commanded);
    lemma_a_screens_key_leaves_the_menu(app, key);
    lemma_an_escape_leaves_the_menu(app, key);
    assert forall|to: usize| (#[trigger] app.switched(to)).0.shell.menu == app.shell.menu by {
        lemma_a_switch_leaves_the_menu(app, to, Kind::Pods);
    }
    lemma_a_switch_leaves_the_menu(app, 0, Kind::Pods);
    assert forall|kind: Kind|
        (#[trigger] app.scope_pressed(kind, key)).0.shell.menu == app.shell.menu by {
        lemma_a_scopes_key_leaves_the_menu(app, kind, key);
    }
}

proof fn lemma_a_question_leaves_the_menu(app: AppView, key: KeyEvent, event: MouseEvent)
    ensures
        app.modal_pressed(key).0.shell.menu == app.shell.menu,
        forall|target: Option<Target>|
            (#[trigger] app.modal_clicked(event.kind, target)).0.shell.menu == app.shell.menu,
{
    reveal(AppView::modal_pressed);
    reveal(AppView::modal_clicked);
}

proof fn lemma_a_click_keeps_the_menu(app: AppView, target: Target)
    requires
        menu_kept(app.shell),
    ensures
        menu_kept(app.clicked(target).0.shell),
{
    reveal(AppView::clicked);
    reveal(ScreenView::clicked);
    assert forall|to: usize| (#[trigger] app.switched(to)).0.shell.menu == app.shell.menu by {
        lemma_a_switch_leaves_the_menu(app, to, Kind::Pods);
    }
    assert forall|kind: Kind| (#[trigger] app.with_kind(kind)).0.shell.menu == app.shell.menu by {
        lemma_a_switch_leaves_the_menu(app, 0, kind);
    }
    assert forall|button: super::screen::Button|
        (#[trigger] app.pushed(button)).0.shell.menu == app.shell.menu by {
        lemma_a_button_leaves_the_menu(app, button);
    }
}

proof fn lemma_a_menu_is_walked(app: AppView, menu: super::shell::Menu, at: usize, code: KeyCode)
    ensures
        menu_kept(app.menu_pressed(menu, at, code).0.shell),
        forall|target: Option<Target>|
            menu_kept((#[trigger] app.menu_clicked(menu, target)).0.shell),
{
    reveal(AppView::menu_pressed);
    reveal(AppView::menu_clicked);
    reveal(AppView::with_env);
    let closed = app.with_menu(None);
    assert forall|kind: Kind| (#[trigger] closed.with_kind(kind)).0.shell.menu is None by {
        lemma_a_switch_leaves_the_menu(closed, 0, kind);
    }
}

/// The open menu stays on one of its lines, whatever is pressed or clicked.
pub proof fn law_the_menu_stays_on_its_lines(app: AppView, key: KeyEvent, event: MouseEvent)
    requires
        menu_kept(app.shell),
    ensures
        menu_kept(app.pressed(key).0.shell),
        menu_kept(app.pointed(event).0.shell),
{
    reveal(AppView::pressed);
    reveal(AppView::pointed);
    reveal(AppView::search_pressed);
    reveal(AppView::pane_search_pressed);
    lemma_a_question_leaves_the_menu(app, key, event);
    lemma_a_command_leaves_the_menu(app, key);
    if let Some((menu, at)) = app.shell.menu {
        lemma_a_menu_is_walked(app, menu, at, key.code);
    }
    assert forall|target: Target| menu_kept((#[trigger] app.clicked(target)).0.shell) by {
        lemma_a_click_keeps_the_menu(app, target);
    }
}

// ---------------------------------------------------------------------------
// The workers
// ---------------------------------------------------------------------------

/// The worker is told what to follow once: nothing more is said until
/// something else is to be followed.
pub proof fn law_the_worker_is_told_once(app: AppView)
    ensures
        app.follow_ticked().0.follow_ticked() == (app.follow_ticked().0, Seq::<ActionView>::empty()),
{
    reveal(AppView::follow_ticked);
    let then = app.follow_ticked().0;
    if app.desired() != app.following {
        assert(then.desired() == app.desired()) by {
            if let (Some(screen), Some(data)) = (app.scope_at(app.tab), app.data_at(app.tab)) {
                assert(then.scope_at(app.tab) == Some(screen.following(app.desired())));
                lemma_following_is_desired(screen, app.tab, data);
            }
        }
    }
}

/// What a pane has just been settled on is what it wants to follow.
proof fn lemma_following_is_desired(screen: ScopeView, scope: usize, data: crate::store::ScopeData)
    ensures
        screen.following(screen.desired_log(scope, data)).desired_log(scope, data)
            == screen.desired_log(scope, data),
{
}

/// A read that fails again as it failed before is not said again.
pub proof fn law_a_failure_is_said_once(app: AppView, was: Store, at: usize, kind: Kind)
    requires
        at < was.scopes@.len(),
        at < app.store.scopes@.len(),
        was.scopes@[at as int].summary(kind).1 == app.store.scopes@[at as int].summary(kind).1,
    ensures
        app.read_failed(was, at, kind) == app,
{
    reveal(AppView::read_failed);
}

/// A value that comes is in nothing the program keeps: the store is what it
/// was.
pub proof fn law_a_value_is_not_put_on_file(app: AppView, event: kube::Event, then: Store)
    requires
        event is SecretValue,
        app.store == then,
    ensures
        app.kube_told(event, then).0.store == app.store,
        app.kube_told(event, then).0.cache_dirty == app.cache_dirty,
{
    reveal(AppView::kube_told);
    reveal(AppView::screen_told);
}

// ---------------------------------------------------------------------------
// The session
// ---------------------------------------------------------------------------

/// The session file has the layout and nothing else of a screen: neither what
/// is typed in its box nor where its cursor stands.
pub proof fn law_the_session_never_carries_the_query_or_the_cursor(
    screen: ScreenView,
    input: InputView,
    cursor: ListCursor,
    held: SessionTabView,
)
    ensures
        screen.with_input(input).saved(held) == screen.saved(held),
        screen matches ScreenView::Scope(scope) ==> ScreenView::Scope(
            scope.with_list(scope.kind, ListView { cursor, ..scope.list() }),
        ).saved(held) == screen.saved(held),
        screen matches ScreenView::Secrets(secrets) ==> ScreenView::Secrets(
            SecretsView { cursor, ..secrets },
        ).saved(held) == screen.saved(held),
        screen matches ScreenView::Registries(registries) ==> ScreenView::Registries(
            registries.with_table(TableView { cursor, ..registries.table() }),
        ).saved(held) == screen.saved(held),
{
    reveal(ScreenView::with_input);
}

/// The table of a screen that the session file is about.
pub open spec fn saved_layout(screen: ScreenView) -> Seq<crate::columns::ColumnConfig> {
    match screen {
        ScreenView::Scope(screen) => screen.lists.pods.layout,
        ScreenView::Secrets(screen) => screen.layout,
        ScreenView::Registries(screen) => screen.repositories.layout,
    }
}

/// Two screens of one sort, over the same columns.
pub open spec fn alike(a: ScreenView, b: ScreenView) -> bool {
    &&& a is Scope == b is Scope
    &&& a is Secrets == b is Secrets
    &&& same_columns(saved_layout(a), saved_layout(b))
    &&& each_once(saved_layout(a))
}

/// A screen's layout comes back out of the file as it went in.
pub proof fn law_a_screen_survives_the_session_file(
    a: ScreenView,
    b: ScreenView,
    held: SessionTabView,
)
    requires
        alike(a, b),
    ensures
        b.restored(a.saved(held)).saved(held) == a.saved(held),
{
    law_columns_survive_the_session_file(saved_layout(a), saved_layout(b));
    match a {
        ScreenView::Scope(screen) => {
            law_a_kind_survives_the_session_file(screen.kind);
            law_a_sort_survives_the_session_file(
                screen.lists.pods.sort,
                screen.lists.pods.descending,
            );
        },
        ScreenView::Secrets(screen) => {
            law_a_sort_survives_the_session_file(screen.sort, screen.descending);
        },
        ScreenView::Registries(screen) => {
            law_a_sort_survives_the_session_file(
                screen.repositories.sort,
                screen.repositories.descending,
            );
        },
    }
}

/// Every tab has a key of its own.
pub open spec fn keys_differ(tabs: Seq<Tab>) -> bool {
    forall|i: int, j: int|
        0 <= i < j < tabs.len() ==> (#[trigger] tabs[i]).key_text() != (#[trigger] tabs[j]).key_text()
}

/// Two runs with the same tabs, each over the same columns.
pub open spec fn same_run(a: AppView, b: AppView) -> bool {
    &&& a.tabs == b.tabs
    &&& keys_differ(a.tabs)
    &&& a.screens.len() == a.tabs.len()
    &&& b.screens.len() == a.tabs.len()
    &&& a.tab < a.tabs.len()
    &&& forall|i: int| 0 <= i < a.tabs.len() ==> alike(#[trigger] a.screens[i], b.screens[i])
}

proof fn lemma_saved_to(app: AppView, count: int)
    requires
        0 <= count <= app.tabs.len(),
        app.screens.len() == app.tabs.len(),
        keys_differ(app.tabs),
    ensures
        app.saved_to(count).tabs.len() == count,
        app.saved_to(count).tab == app.saved_to(0).tab,
        forall|i: int|
            0 <= i < count ==> (#[trigger] app.saved_to(count).tabs[i]) == (
                app.tabs[i].key_text(),
                app.screens[i].saved(SessionTabView::empty()),
            ),
    decreases count,
{
    if count > 0 {
        lemma_saved_to(app, count - 1);
        let before = app.saved_to(count - 1);
        let key = app.tabs[count - 1].key_text();
        assert forall|k: int| 0 <= k < count - 1 implies (#[trigger] before.tabs[k]).0 != key by {
            assert(app.tabs[k].key_text() != app.tabs[count - 1].key_text());
        }
        crate::session::lemma_tab_at(before.tabs, key, count - 1);
    }
}

proof fn lemma_tab_is_found(tabs: Seq<Tab>, at: int)
    requires
        0 <= at < tabs.len(),
        keys_differ(tabs),
    ensures
        tab_position(tabs, tabs[at].key_text()) == at,
    decreases at,
{
    if at > 0 {
        assert(tabs[0].key_text() != tabs[at].key_text());
        let rest = tabs.skip(1);
        assert forall|i: int, j: int| 0 <= i < j < rest.len() implies (
        #[trigger] rest[i]).key_text() != (#[trigger] rest[j]).key_text() by {
            assert(rest[i] == tabs[i + 1]);
            assert(rest[j] == tabs[j + 1]);
        }
        lemma_tab_is_found(rest, at - 1);
        assert(rest[at - 1] == tabs[at]);
    }
}

/// A layout survives a round trip through the file: a run that is given back
/// what another left has the same tab open, and would leave the same again.
pub proof fn law_a_layout_survives_the_session_file(a: AppView, b: AppView)
    requires
        same_run(a, b),
    ensures
        b.restored(a.saved()).tab == a.tab,
        b.restored(a.saved()).saved() == a.saved(),
{
    let session = a.saved();
    let count = a.tabs.len() as int;
    let then = b.restored(session);
    lemma_saved_to(a, count);
    lemma_tab_is_found(a.tabs, a.tab as int);
    assert(then.tab == a.tab);
    lemma_saved_to(then, count);
    assert forall|i: int| 0 <= i < count implies then.saved().tabs[i] == session.tabs[i] by {
        let key = a.tabs[i].key_text();
        assert forall|k: int| 0 <= k < i implies (#[trigger] session.tabs[k]).0 != key by {
            assert(session.tabs[k].0 == a.tabs[k].key_text());
        }
        crate::session::lemma_tab_at(session.tabs, key, i);
        assert(session.held(key) == Some(a.screens[i].saved(SessionTabView::empty())));
        assert(alike(a.screens[i], b.screens[i]));
        law_a_screen_survives_the_session_file(
            a.screens[i],
            b.screens[i],
            SessionTabView::empty(),
        );
        assert(then.screens[i] == b.screens[i].restored(
            a.screens[i].saved(SessionTabView::empty()),
        ));
    }
    assert(then.saved().tabs =~= session.tabs);
}

/// The kind a scope tab shows.
pub open spec fn kind_of(screen: ScreenView) -> Option<Kind> {
    match screen {
        ScreenView::Scope(screen) => Some(screen.kind),
        _ => None,
    }
}

/// The column a screen's table is sorted by, and which way.
pub open spec fn sort_said(screen: ScreenView) -> (crate::columns::ColumnId, bool) {
    match screen {
        ScreenView::Scope(screen) => (screen.lists.pods.sort, screen.lists.pods.descending),
        ScreenView::Secrets(screen) => (screen.sort, screen.descending),
        ScreenView::Registries(screen) => (
            screen.repositories.sort,
            screen.repositories.descending,
        ),
    }
}

/// The search boxes and the cursors of a screen.
pub open spec fn boxes_and_cursors(screen: ScreenView) -> Seq<(InputView, ListCursor)> {
    match screen {
        ScreenView::Scope(screen) => seq![
            (screen.lists.pods.input, screen.lists.pods.cursor),
            (screen.lists.events.input, screen.lists.events.cursor),
            (screen.lists.configmaps.input, screen.lists.configmaps.cursor),
            (screen.lists.secrets.input, screen.lists.secrets.cursor),
        ],
        ScreenView::Secrets(screen) => seq![(screen.input, screen.cursor)],
        ScreenView::Registries(screen) => seq![
            (screen.repositories.input, screen.repositories.cursor),
            (screen.tags.input, screen.tags.cursor),
        ],
    }
}

/// A screen that is given back what another left has its kind, its sort and its
/// columns, and keeps its own boxes and cursors.
pub proof fn law_a_screen_has_back_its_kind_its_sort_and_its_columns(a: ScreenView, b: ScreenView)
    requires
        alike(a, b),
    ensures
        ({
            let then = b.restored(a.saved(SessionTabView::empty()));
            &&& kind_of(then) == kind_of(a)
            &&& sort_said(then) == sort_said(a)
            &&& saved_layout(then) == saved_layout(a)
            &&& boxes_and_cursors(then) == boxes_and_cursors(b)
        }),
{
    let sort = sort_said(a);
    law_columns_survive_the_session_file(saved_layout(a), saved_layout(b));
    law_a_sort_survives_the_session_file(sort.0, sort.1);
    if let ScreenView::Scope(screen) = a {
        law_a_kind_survives_the_session_file(screen.kind);
    }
    assert(boxes_and_cursors(b.restored(a.saved(SessionTabView::empty())))
        =~= boxes_and_cursors(b));
}

/// A run that is given back what another left has the same tab open, and each of
/// its tables has that run's sort, direction and columns, and each scope tab its
/// kind. No box and no cursor comes along.
pub proof fn law_a_run_has_back_every_tables_layout(a: AppView, b: AppView)
    requires
        same_run(a, b),
    ensures
        b.restored(a.saved()).tab == a.tab,
        b.restored(a.saved()).screens.len() == a.screens.len(),
        forall|i: int|
            0 <= i < a.screens.len() ==> {
                let then = #[trigger] b.restored(a.saved()).screens[i];
                &&& kind_of(then) == kind_of(a.screens[i])
                &&& sort_said(then) == sort_said(a.screens[i])
                &&& saved_layout(then) == saved_layout(a.screens[i])
                &&& boxes_and_cursors(then) == boxes_and_cursors(b.screens[i])
            },
{
    let session = a.saved();
    let count = a.tabs.len() as int;
    lemma_saved_to(a, count);
    lemma_tab_is_found(a.tabs, a.tab as int);
    assert forall|i: int| 0 <= i < a.screens.len() implies {
        let then = #[trigger] b.restored(a.saved()).screens[i];
        &&& kind_of(then) == kind_of(a.screens[i])
        &&& sort_said(then) == sort_said(a.screens[i])
        &&& saved_layout(then) == saved_layout(a.screens[i])
        &&& boxes_and_cursors(then) == boxes_and_cursors(b.screens[i])
    } by {
        let key = a.tabs[i].key_text();
        assert forall|k: int| 0 <= k < i implies (#[trigger] session.tabs[k]).0 != key by {
            assert(session.tabs[k].0 == a.tabs[k].key_text());
        }
        crate::session::lemma_tab_at(session.tabs, key, i);
        assert(session.held(key) == Some(a.screens[i].saved(SessionTabView::empty())));
        assert(alike(a.screens[i], b.screens[i]));
        law_a_screen_has_back_its_kind_its_sort_and_its_columns(a.screens[i], b.screens[i]);
    }
}

} // verus!
