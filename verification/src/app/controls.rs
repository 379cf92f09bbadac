//! What each key and each click of the whole program does: which tab it opens,
//! which kind it shows, what it asks a worker for and what it copies.

use vstd::prelude::*;

use super::deeds::on_pod;
use super::lists::ListsView;
use super::pane::PaneText;
use super::scope::ScopeView;
use super::screen::{ActionView, Button, Target};
use super::screens::ScreenView;
use super::shell::{Focus, Menu};
use super::state::AppView;
use crate::input::{KeyCode, KeyEvent};
use crate::kube::{self, Kind, Pod};
use crate::rules::{heads_env, law_an_environment_chosen_is_the_querys};
use crate::store::ScopeData;
use crate::worker;

verus! {

/// Whether a key goes to the program itself: no help, no question, no menu and
/// no box takes it.
pub open spec fn is_free(app: AppView, key: KeyEvent) -> bool {
    &&& key.pressed
    &&& !key.control
    &&& !app.shell.help_open
    &&& app.shell.menu is None
    &&& app.shell.focus == Focus::Table || app.shell.focus == Focus::Details
    &&& app.tab < app.tabs.len() <= usize::MAX
    &&& app.tabs.len() == app.screens.len()
    &&& app.screens[app.tab as int] is Scope ==> app.screens[app.tab as int]->Scope_0.modal is None
}

/// A digit opens the tab of that number, counted from one, where there is one;
/// `q` leaves, `?` opens the help, `/` goes to the box, and `Tab` goes between
/// the table and the details.
pub proof fn law_the_programs_own_keys(app: AppView, key: KeyEvent)
    requires
        is_free(app, key),
    ensures
        ({
            let (then, action) = app.pressed(key);
            &&& key.code is Char && '1' <= key.code->Char_0 <= '9' ==> {
                let number = key.code->Char_0 as u32 - '0' as u32;
                &&& number <= app.tabs.len() ==> then.tab == number - 1
                &&& number > app.tabs.len() ==> then.tab == app.tab
                &&& number <= app.tabs.len() && number - 1 != app.tab ==> then.shell.focus
                    == Focus::Table
            }
            &&& key.code == KeyCode::Char('q') ==> action == ActionView::Quit
            &&& key.code == KeyCode::Char('?') ==> then.shell.help_open && then.tab == app.tab
            &&& key.code == KeyCode::Char('/') && app.shell.focus == Focus::Table
                ==> then.shell.focus == Focus::Search
            &&& key.code == KeyCode::Tab ==> then.shell.focus == if app.shell.focus == Focus::Table {
                Focus::Details
            } else {
                Focus::Table
            }
            &&& key.code == KeyCode::Char(']') || key.code == KeyCode::Right ==> then.tab == if app.tab
                + 1 < app.tabs.len() {
                app.tab + 1
            } else {
                0
            }
            &&& key.code == KeyCode::Char('[') || key.code == KeyCode::Left ==> then.tab == if app.tab
                > 0 {
                app.tab - 1
            } else {
                app.tabs.len() - 1
            }
        }),
{
    reveal(AppView::pressed);
    reveal(AppView::commanded);
    reveal(AppView::switched);
    let (tab, count) = (app.tab as int, app.tabs.len() as int);
    if tab + 1 < count {
        vstd::arithmetic::div_mod::lemma_small_mod((tab + 1) as nat, count as nat);
    } else {
        vstd::arithmetic::div_mod::lemma_mod_self_0(count);
    }
    if tab > 0 {
        vstd::arithmetic::div_mod::lemma_small_mod((tab - 1) as nat, count as nat);
    } else {
        vstd::arithmetic::div_mod::lemma_mod_add_multiples_vanish(-1, count);
        vstd::arithmetic::div_mod::lemma_small_mod((count - 1) as nat, count as nat);
    }
}

/// `r` reads again what the open tab shows: a scope by its own number, or
/// everything of Azure.
pub proof fn law_a_refresh_is_of_the_open_tab(app: AppView, key: KeyEvent)
    requires
        is_free(app, key),
        key.code == KeyCode::Char('r'),
    ensures
        app.tabs[app.tab as int] is Scope ==> app.pressed(key).1 == ActionView::Kube(
            kube::RequestView::Refresh(app.tab),
        ),
        !(app.tabs[app.tab as int] is Scope) ==> app.pressed(key).1 == ActionView::Azure(
            worker::RequestView::Refresh,
        ),
        app.pressed(key).0.tab == app.tab,
{
    reveal(AppView::pressed);
    reveal(AppView::commanded);
    reveal(AppView::refreshed);
}

/// Whether the open tab is a scope with its data on file.
pub open spec fn is_open(app: AppView, screen: ScopeView, data: ScopeData) -> bool {
    &&& app.tab < app.tabs.len()
    &&& app.tabs.len() == app.screens.len()
    &&& app.tabs[app.tab as int] is Scope
    &&& app.screens[app.tab as int] == ScreenView::Scope(screen)
    &&& app.tab < app.store.scopes@.len()
    &&& app.store.scopes@[app.tab as int] == data
}

/// On a scope tab `p`, `m` and `s` show the pods, the configmaps and the
/// secrets, and so does `e` the events; the worker is told what shows.
pub proof fn law_a_scopes_keys_show_their_kinds(
    app: AppView,
    screen: ScopeView,
    data: ScopeData,
    key: KeyEvent,
)
    requires
        is_free(app, key),
        is_open(app, screen, data),
    ensures
        ({
            let (then, action) = app.pressed(key);
            let shows = |kind: Kind|
                {
                    &&& then.screens[app.tab as int] is Scope
                    &&& then.screens[app.tab as int]->Scope_0.kind == kind
                    &&& screen.kind != kind ==> action == ActionView::Kube(
                        kube::RequestView::Showing(app.tab, kind),
                    )
                };
            &&& key.code == KeyCode::Char('p') ==> shows(Kind::Pods)
            &&& key.code == KeyCode::Char('m') ==> shows(Kind::ConfigMaps)
            &&& key.code == KeyCode::Char('s') ==> shows(Kind::Secrets)
            &&& key.code == KeyCode::Char('e') ==> shows(Kind::Events)
        }),
{
    reveal(AppView::pressed);
    reveal(AppView::commanded);
    reveal(AppView::scope_pressed);
    reveal(AppView::with_kind);
    reveal(AppView::to_events);
}

/// On a pod `y` copies its name, `b` runs a shell in it, `x` asks whether to
/// restart it and `e` shows the events of its name.
pub proof fn law_a_pods_keys_act_on_the_pod(
    app: AppView,
    screen: ScopeView,
    data: ScopeData,
    pod: Pod,
    key: KeyEvent,
)
    requires
        is_free(app, key),
        is_open(app, screen, data),
        on_pod(screen, data, pod),
    ensures
        ({
            let (then, action) = app.pressed(key);
            &&& key.code == KeyCode::Char('y') ==> action is Copy && action->Copy_text
                == pod.key.name@
            &&& key.code == KeyCode::Char('b') ==> {
                &&& action is Exec
                &&& action->Exec_context == app.tabs[app.tab as int]->Scope_0.scope@.context
                &&& action->Exec_namespace == pod.key.namespace@
                &&& action->Exec_pod == pod.key.name@
            }
            &&& key.code == KeyCode::Char('d') && action is Kube ==> action == ActionView::Kube(
                kube::RequestView::Describe {
                    scope: app.tab,
                    object: kube::ObjectView {
                        kind: "pod"@,
                        namespace: pod.key.namespace@,
                        name: pod.key.name@,
                    },
                },
            )
            &&& key.code == KeyCode::Char('v') && action is Kube ==> action == ActionView::Kube(
                kube::RequestView::Yaml {
                    scope: app.tab,
                    object: kube::ObjectView {
                        kind: "pod"@,
                        namespace: pod.key.namespace@,
                        name: pod.key.name@,
                    },
                },
            )
            &&& key.code == KeyCode::Char('x') && pod.owner is Some
                ==> then.screens[app.tab as int]->Scope_0.modal is Some && action is Nothing
            &&& key.code == KeyCode::Char('e')
                ==> then.screens[app.tab as int]->Scope_0.lists.events.input.text == pod.key.name@
            &&& key.code == KeyCode::Char('l') || key.code == KeyCode::Enter ==> {
                let pane = then.screens[app.tab as int]->Scope_0.pane;
                if screen.pane.open && screen.pane.text == PaneText::Log {
                    !pane.open
                } else {
                    pane.open && pane.text == PaneText::Log
                }
            }
        }),
{
    reveal(AppView::pressed);
    reveal(AppView::commanded);
    reveal(AppView::scope_pressed);
    reveal(AppView::pushed);
    reveal(AppView::to_events);
    reveal(AppView::name_copied);
    reveal(ScopeView::pushed);
    reveal(ListsView::object);
}

/// In an open menu `j` and `k` go round its lines, and `Enter` takes the line
/// it is on: an environment, which goes into the box, or a kind.
pub proof fn law_a_menu_takes_the_line_it_is_on(
    app: AppView,
    key: KeyEvent,
    menu: Menu,
    at: usize,
)
    requires
        key.pressed,
        !key.control,
        !app.shell.help_open,
        app.tab < app.tabs.len(),
        app.tabs.len() == app.screens.len(),
        app.screens[app.tab as int] is Scope ==> app.screens[app.tab as int]->Scope_0.modal is None,
        app.shell.menu == Some((menu, at)),
        at < 4,
    ensures
        ({
            let (then, action) = app.pressed(key);
            &&& key.code == KeyCode::Char('j') || key.code == KeyCode::Down ==> then.shell.menu
                == Some(
                (
                    menu,
                    if at < 3 {
                        (at + 1) as usize
                    } else {
                        0
                    },
                ),
            )
            &&& key.code == KeyCode::Char('k') || key.code == KeyCode::Up ==> then.shell.menu == Some(
                (
                    menu,
                    if at > 0 {
                        (at - 1) as usize
                    } else {
                        3
                    },
                ),
            )
            &&& key.code == KeyCode::Esc ==> then.shell.menu is None && then.screens == app.screens
            &&& key.code == KeyCode::Enter ==> then.shell.menu is None
            &&& key.code == KeyCode::Enter && menu == Menu::Kind && app.screens[app.tab as int]
                is Scope ==> then.screens[app.tab as int]->Scope_0.kind == if at == 0 {
                Kind::Pods
            } else if at == 1 {
                Kind::Events
            } else if at == 2 {
                Kind::ConfigMaps
            } else {
                Kind::Secrets
            }
        }),
{
    reveal(AppView::pressed);
    reveal(AppView::menu_pressed);
    reveal(AppView::with_kind);
    reveal(AppView::with_env);
    assert(!app.asks());
    assert(super::state::menu_lines(menu) == 4);
    let (a, b) = ((at + 1) % 4, (at + 3) % 4);
    assert(a == if at < 3 {
        at + 1
    } else {
        0
    });
    assert(b == if at > 0 {
        at - 1
    } else {
        3
    });
}

/// An environment taken from the menu replaces the one in the box and leaves
/// every other word of it.
pub proof fn law_the_menu_puts_the_environment_in_the_box(
    app: AppView,
    key: KeyEvent,
    at: usize,
    word: Seq<char>,
)
    requires
        key.pressed,
        !key.control,
        key.code == KeyCode::Enter,
        !app.shell.help_open,
        app.tab < app.tabs.len(),
        app.tabs.len() == app.screens.len(),
        app.screens[app.tab as int] is Secrets,
        app.shell.menu == Some((Menu::Env, at)),
        at < 4,
    ensures
        ({
            let then = app.pressed(key).0;
            let before = crate::filter::words_of(app.screens[app.tab as int]->Secrets_0.input.text);
            let after = crate::filter::words_of(then.screens[app.tab as int]->Secrets_0.input.text);
            &&& then.screens[app.tab as int] is Secrets
            &&& !heads_env(word) ==> (after.contains(word) <==> before.contains(word))
            &&& heads_env(word) ==> (after.contains(word) <==> (at == 1 && word == "env:dev"@) || (at
                == 2 && word == "env:qa"@) || (at == 3 && word == "env:prod"@))
        }),
{
    reveal(AppView::pressed);
    reveal(AppView::menu_pressed);
    reveal(AppView::with_env);
    reveal(ScreenView::with_input);
    reveal(ScreenView::input);
    let text = app.screens[app.tab as int]->Secrets_0.input.text;
    law_an_environment_chosen_is_the_querys(text, crate::filter::env_line(at as int), word);
}

/// A click does what it landed on says: a tab opens, a button is pushed, the
/// box has focus or is emptied.
pub proof fn law_a_click_does_what_it_landed_on(app: AppView, index: usize)
    requires
        app.tab < app.tabs.len(),
        app.tabs.len() == app.screens.len(),
    ensures
        index < app.tabs.len() ==> app.clicked(Target::Tab(index)).0.tab == index,
        app.clicked(Target::SearchField).0.shell.focus == Focus::Search,
        app.clicked(Target::ClearSearch).0.query().len() == 0,
        app.clicked(Target::Details).0.shell.focus == Focus::Details,
        app.clicked(Target::Help).0.shell.help_open == !app.shell.help_open,
        app.clicked(Target::Button(Button::Describe)) == app.pushed(Button::Describe),
        app.clicked(Target::Header(crate::columns::ColumnId::Env)).0.shell.menu is Some,
{
    reveal(AppView::clicked);
    reveal(AppView::switched);
    reveal(ScreenView::with_input);
    reveal(ScreenView::input);
}

/// What is pasted goes into the box that has focus, and nowhere where none has.
pub proof fn law_a_paste_goes_into_the_box(app: AppView, text: Seq<char>)
    requires
        app.tab < app.screens.len(),
    ensures
        app.shell.focus == Focus::Table || app.shell.focus == Focus::Details ==> app.pasted(text)
            == app,
        app.shell.focus == Focus::Search && app.screens[app.tab as int] is Secrets ==> app.pasted(
            text,
        ).screens[app.tab as int] is Secrets && app.pasted(
            text,
        ).screens[app.tab as int]->Secrets_0.input
            == app.screens[app.tab as int]->Secrets_0.input.pasted(text),
{
    reveal(AppView::pasted);
    reveal(ScreenView::with_input);
    reveal(ScreenView::input);
}

} // verus!
