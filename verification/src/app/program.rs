//! The application: which tab is open, what the keys do before a screen sees
//! them, and what the status bar says.

use vstd::prelude::*;

use super::pane::log_said;
use super::registries::RegistriesScreen;
use super::scope::ScopeScreen;
use super::screen::{kube_action, AppAction, Button, Tab};
use super::screens::{Screen, ScreenView};
use super::secrets::SecretsScreen;
use super::shell::{Focus, Menu, Shell};
use super::state::{opening_screen, scope_among, scope_count, screen_views, AppView};
use crate::config::ScopeTab;
use crate::filter::{self, env_choice, Env, ENV_COUNT};
use crate::input::{KeyCode, KeyEvent, TextInput};
use crate::kube::{self, Kind, LogFollow, KIND_COUNT};
use crate::store::{ScopeData, Store};
use crate::worker;

verus! {

pub struct App {
    pub shell: Shell,
    /// The tabs in the bar's order: every AKS scope, then Secrets, then
    /// Registries. One screen each.
    pub tabs: Vec<Tab>,
    pub tab: usize,
    pub screens: Vec<Screen>,
    pub store: Store,
    /// Whether a read has landed since the cache was last written.
    pub cache_dirty: bool,
    /// What the kube worker was last told to follow, so the tick only speaks
    /// when that changes.
    pub following: Option<LogFollow>,
    /// Where the cursor is on a scope tab and when it got there, for the rest
    /// interval that gates the owner read.
    pub rested: Option<(usize, usize, u64)>,
}

impl View for App {
    type V = AppView;

    open spec fn view(&self) -> AppView {
        AppView {
            shell: self.shell@,
            tabs: self.tabs@,
            tab: self.tab,
            screens: screen_views(self.screens@),
            store: self.store,
            cache_dirty: self.cache_dirty,
            following: log_said(self.following),
            rested: self.rested,
        }
    }
}

/// A scope tab's screen among the screens.
pub fn scope_in(screens: &mut Vec<Screen>, at: usize) -> (r: Option<&mut ScopeScreen>)
    ensures
        match scope_among(screen_views(old(screens)@), at) {
            Some(screen) => r matches Some(held) && held@ == screen && screen_views(
                final(screens)@,
            ) == screen_views(old(screens)@).update(at as int, ScreenView::Scope(final(held)@)),
            None => r is None && screen_views(final(screens)@) == screen_views(old(screens)@),
        },
{
    if at < screens.len() {
        proof {
            lemma_one_screen(screens@, at as int);
        }
        screens[at].scope_mut()
    } else {
        None
    }
}

/// The box of one of the screens.
pub fn input_in(screens: &mut Vec<Screen>, at: usize) -> (r: &mut TextInput)
    requires
        at < old(screens)@.len(),
    ensures
        r@ == screen_views(old(screens)@)[at as int].input(),
        screen_views(final(screens)@) == screen_views(old(screens)@).update(
            at as int,
            screen_views(old(screens)@)[at as int].with_input(final(r)@),
        ),
{
    proof {
        lemma_one_screen(screens@, at as int);
    }
    screens[at].input_mut()
}

/// A change of one screen is a change of one view.
pub proof fn lemma_one_screen(screens: Seq<Screen>, at: int)
    requires
        0 <= at < screens.len(),
    ensures
        forall|screen: Screen|
            #[trigger] screen_views(screens.update(at, screen)) == screen_views(screens).update(
                at,
                screen@,
            ),
        screen_views(screens)[at] == screens[at]@,
{
    assert forall|screen: Screen|
        #[trigger] screen_views(screens.update(at, screen)) == screen_views(screens).update(
            at,
            screen@,
        ) by {
        assert(screen_views(screens.update(at, screen)) =~= screen_views(screens).update(
            at,
            screen@,
        ));
    }
}

/// A scope tab among the tabs.
pub fn scope_tab(tabs: &Vec<Tab>, at: usize) -> (r: Option<&ScopeTab>)
    ensures
        r == if at < tabs@.len() {
            match tabs@[at as int] {
                Tab::Scope(tab) => Some(&tab),
                _ => None::<&ScopeTab>,
            }
        } else {
            None::<&ScopeTab>
        },
{
    if at < tabs.len() {
        match &tabs[at] {
            Tab::Scope(tab) => Some(tab),
            _ => None,
        }
    } else {
        None
    }
}

/// What a scope holds on file.
pub fn scope_data(store: &Store, at: usize) -> (r: Option<&ScopeData>)
    ensures
        r == if at < store.scopes@.len() {
            Some(&store.scopes@[at as int])
        } else {
            None::<&ScopeData>
        },
{
    store.scope(at)
}

impl App {
    #[must_use]
    pub fn new(tabs: Vec<Tab>, store: Store) -> (r: Self)
        ensures
            r@.is_fresh(tabs@),
            r@.shell == super::shell::ShellView::fresh(),
            r@.tabs == tabs@,
            r@.tab == 0,
            r@.screens == tabs@.map_values(|tab: Tab| opening_screen(tab)),
            r@.store.azure == store.azure,
            r@.store.scopes@.len() == scope_count(tabs@),
            forall|i: int|
                0 <= i < scope_count(tabs@) ==> if i < store.scopes@.len() {
                    (#[trigger] r@.store.scopes@[i]) == store.scopes@[i]
                } else {
                    r@.store.scopes@[i].is_unread()
                },
            !r@.cache_dirty,
            r@.following is None,
            r@.rested is None,
    {
        let mut store = store;
        let mut screens: Vec<Screen> = Vec::new();
        let mut scopes: usize = 0;
        let mut i: usize = 0;
        while i < tabs.len()
            invariant
                i <= tabs@.len(),
                scopes <= i,
                screens@.len() == i,
                scopes == scope_count(tabs@.take(i as int)),
                forall|k: int| 0 <= k < i ==> (#[trigger] screens@[k])@ == opening_screen(tabs@[k]),
            decreases tabs@.len() - i,
        {
            proof {
                assert(tabs@.take(i + 1).drop_last() =~= tabs@.take(i as int));
            }
            match &tabs[i] {
                Tab::Scope(tab) => {
                    scopes = scopes + 1;
                    screens.push(
                        Screen::Scope(Box::new(ScopeScreen::new(tab.scope.namespace.is_none()))),
                    );
                },
                Tab::Secrets => screens.push(Screen::Secrets(SecretsScreen::default())),
                Tab::Registries => screens.push(Screen::Registries(RegistriesScreen::default())),
            }
            i = i + 1;
        }
        proof {
            assert(tabs@.take(tabs@.len() as int) =~= tabs@);
            assert(screen_views(screens@) =~= tabs@.map_values(|tab: Tab| opening_screen(tab)));
        }
        // One store slot per scope tab, whether or not the cache had it.
        store.resize(scopes);
        App {
            shell: Shell::default(),
            tabs,
            tab: 0,
            screens,
            store,
            cache_dirty: false,
            following: None,
            rested: None,
        }
    }

    /// The kind the open tab shows, when it is a scope tab.
    #[must_use]
    pub fn kind(&self) -> (r: Option<Kind>)
        ensures
            r == self@.kind(),
    {
        if self.tab < self.screens.len() {
            match self.screens[self.tab].scope() {
                Some(screen) => Some(screen.kind),
                None => None,
            }
        } else {
            None
        }
    }

    pub fn asks(&self) -> (r: bool)
        ensures
            r == self@.asks(),
    {
        if self.tab < self.screens.len() {
            match self.screens[self.tab].scope() {
                Some(screen) => screen.modal.is_some(),
                None => false,
            }
        } else {
            false
        }
    }

    fn pane_open(&self) -> (r: bool)
        ensures
            r == (self@.scope_at(self@.tab) matches Some(screen) && screen.pane.open),
    {
        if self.tab < self.screens.len() {
            match self.screens[self.tab].scope() {
                Some(screen) => screen.pane.open,
                None => false,
            }
        } else {
            false
        }
    }

    fn pane_filtered(&self) -> (r: bool)
        ensures
            r == (self@.scope_at(self@.tab) matches Some(screen) && screen.pane.open
                && screen.pane.filter.text.len() > 0),
    {
        if self.tab < self.screens.len() {
            match self.screens[self.tab].scope() {
                Some(screen) => screen.pane.open && !screen.pane.filter.is_empty(),
                None => false,
            }
        } else {
            false
        }
    }

    // ── The search box ─────────────────────────────────────────────────

    /// What the box of the table showing says.
    fn query(&self) -> (r: &str)
        ensures
            r@ == self@.query(),
    {
        if self.tab < self.screens.len() {
            self.screens[self.tab].input().text()
        } else {
            ""
        }
    }

    /// The environment the query is filtered to, for the menu's tick.
    #[must_use]
    pub fn current_env(&self) -> (r: Option<Env>)
        ensures
            r == self@.env(),
    {
        filter::env_of_query(self.query())
    }

    /// A choice from the menu goes into the search box as `env:prod`, where it
    /// can be seen, typed, and taken off with `Esc` like any filter.
    pub fn choose_env(&mut self, env: Option<Env>)
        ensures
            final(self)@ == old(self)@.with_env(env),
    {
        proof {
            reveal(AppView::with_env);
        }
        let tab: usize = self.tab;
        if tab < self.screens.len() {
            let input = input_in(&mut self.screens, tab);
            let text = filter::with_env(input.text(), env);
            input.set_text(text.as_str());
        }
        self.shell.set_menu(None);
    }

    /// `Esc` out of the table, or the `×`: the filter goes, and the table
    /// comes back whole. Says whether there was one to take off.
    pub fn clear_query(&mut self) -> (r: bool)
        ensures
            final(self)@ == old(self)@.cleared(),
            r == (old(self)@.query().len() > 0),
    {
        proof {
            reveal_strlit("");
        }
        let tab: usize = self.tab;
        if tab < self.screens.len() {
            let input = input_in(&mut self.screens, tab);
            let had = !input.is_empty();
            input.clear();
            had
        } else {
            false
        }
    }

    // ── Tabs and kinds ─────────────────────────────────────────────────

    /// Everything the two Azure screens hold that a refresh makes stale, the
    /// revealed value first. Switching tabs drops it too, like every other
    /// way of looking away from it.
    fn on_azure_refresh(&mut self)
        ensures
            final(self)@ == old(self)@.azure_left(),
    {
        let ghost was = screen_views(self.screens@);
        let ghost left = was.map_values(|screen: ScreenView| screen.azure_left());
        let mut i: usize = 0;
        while i < self.screens.len()
            invariant
                i <= self.screens@.len(),
                self.screens@.len() == was.len(),
                left == was.map_values(|screen: ScreenView| screen.azure_left()),
                forall|k: int| 0 <= k < i ==> (#[trigger] self.screens@[k])@ == left[k],
                forall|k: int| i <= k < was.len() ==> (#[trigger] self.screens@[k])@ == was[k],
                self@ == (AppView { screens: self@.screens, ..old(self)@ }),
            decreases self.screens@.len() - i,
        {
            self.screens[i].leave_azure();
            i = i + 1;
        }
        proof {
            assert(screen_views(self.screens@) =~= left);
        }
    }

    /// Another tab. A scope tab tells the kube worker, so it is read at once
    /// and kept fresh while it shows.
    pub fn switch_to(&mut self, tab: usize) -> (r: AppAction)
        ensures
            (final(self)@, r@) == old(self)@.switched(tab),
    {
        proof {
            reveal(AppView::switched);
        }
        if self.tab == tab || tab >= self.tabs.len() {
            return AppAction::Nothing;
        }
        let left: usize = self.tab;
        if let Some(screen) = scope_in(&mut self.screens, left) {
            screen.look_away();
        }
        self.tab = tab;
        self.shell.set_focus(Focus::Table);
        self.on_azure_refresh();
        match self.kind() {
            Some(kind) => AppAction::Kube(kube::Request::Showing(tab, kind)),
            None => AppAction::Nothing,
        }
    }

    /// `[` and `]`: the previous and the next tab, round the ends.
    fn step_tab(&mut self, forward: bool) -> (r: AppAction)
        ensures
            (final(self)@, r@) == old(self)@.stepped(
                if forward {
                    1
                } else {
                    -1
                },
            ),
    {
        let count: usize = self.tabs.len();
        if count == 0 {
            return AppAction::Nothing;
        }
        let next: usize = turned(self.tab, forward, count);
        self.switch_to(next)
    }

    /// Another kind on this scope tab: the worker reads it at once and keeps
    /// it fresh while it shows.
    pub fn set_kind(&mut self, kind: Kind) -> (r: AppAction)
        ensures
            (final(self)@, r@) == old(self)@.with_kind(kind),
    {
        proof {
            reveal(AppView::with_kind);
        }
        let tab: usize = self.tab;
        match self.kind() {
            None => return AppAction::Nothing,
            Some(held) => if held == kind {
                return AppAction::Nothing;
            },
        }
        if let Some(screen) = scope_in(&mut self.screens, tab) {
            screen.set_kind(kind);
        }
        self.shell.set_focus(Focus::Table);
        AppAction::Kube(kube::Request::Showing(tab, kind))
    }

    // ── Keys ───────────────────────────────────────────────────────────

    /// One toolbar button, whether clicked or pressed as its key.
    pub fn button(&mut self, button: Button) -> (r: AppAction)
        ensures
            (final(self)@, r@) == old(self)@.pushed(button),
    {
        proof {
            reveal(AppView::pushed);
        }
        let tab: usize = self.tab;
        if let (Some(scope), Some(data)) = (
            scope_tab(&self.tabs, tab),
            scope_data(&self.store, tab),
        ) {
            if let Some(screen) = scope_in(&mut self.screens, tab) {
                return screen.push(&mut self.shell, scope, tab, data, button);
            }
        }
        AppAction::Nothing
    }

    /// One key the screen itself has.
    fn screen_key(&mut self, key: KeyEvent) -> (r: AppAction)
        ensures
            (final(self)@, r@) == old(self)@.screen_pressed(key),
    {
        proof {
            reveal(AppView::screen_pressed);
        }
        let tab: usize = self.tab;
        if tab < self.screens.len() {
            proof {
                lemma_one_screen(self.screens@, tab as int);
            }
            self.screens[tab].handle_key(
                &mut self.shell,
                scope_data(&self.store, tab),
                &self.store.azure,
                key,
            )
        } else {
            AppAction::Nothing
        }
    }

    /// The modal takes every key: its own answer it, any other closes it and
    /// is not otherwise acted on.
    fn key_in_modal(&mut self, key: KeyEvent) -> (r: AppAction)
        ensures
            (final(self)@, r@) == old(self)@.modal_pressed(key),
    {
        proof {
            reveal(AppView::modal_pressed);
        }
        let tab: usize = self.tab;
        match scope_in(&mut self.screens, tab) {
            Some(screen) => kube_action(screen.modal_key(&mut self.shell, tab, key)),
            None => AppAction::Nothing,
        }
    }

    /// The open drop-down takes the keys that walk it; `Enter` chooses, any
    /// other key closes it and is not otherwise acted on.
    fn menu_key(&mut self, menu: Menu, at: usize, key: KeyEvent) -> (r: AppAction)
        ensures
            (final(self)@, r@) == old(self)@.menu_pressed(menu, at, key.code),
    {
        proof {
            reveal(AppView::menu_pressed);
        }
        let count: usize = match menu {
            Menu::Env => ENV_COUNT,
            Menu::Kind => KIND_COUNT,
        };
        match key.code {
            KeyCode::Char('j') | KeyCode::Down => {
                self.shell.set_menu(Some((menu, turned(at, true, count))));
                AppAction::Nothing
            },
            KeyCode::Char('k') | KeyCode::Up => {
                self.shell.set_menu(Some((menu, turned(at, false, count))));
                AppAction::Nothing
            },
            KeyCode::Enter => match menu {
                Menu::Env => {
                    self.choose_env(env_choice(at));
                    AppAction::Nothing
                },
                Menu::Kind => {
                    self.shell.set_menu(None);
                    self.set_kind(Kind::from_position(at))
                },
            },
            _ => {
                self.shell.set_menu(None);
                AppAction::Nothing
            },
        }
    }

    /// While the box has focus every key is a character, except the three
    /// that leave it.
    fn key_in_search(&mut self, key: KeyEvent)
        ensures
            final(self)@ == old(self)@.search_pressed(key),
    {
        proof {
            reveal(AppView::search_pressed);
        }
        let tab: usize = self.tab;
        match key.code {
            KeyCode::Enter | KeyCode::Esc | KeyCode::Tab => self.shell.set_focus(Focus::Table),
            _ => {
                if tab < self.screens.len() {
                    input_in(&mut self.screens, tab).handle_key(key);
                }
            },
        }
    }

    /// The pane's filter takes every key but the three that leave it.
    fn key_in_pane_search(&mut self, key: KeyEvent)
        ensures
            final(self)@ == old(self)@.pane_search_pressed(key),
    {
        proof {
            reveal(AppView::pane_search_pressed);
        }
        let tab: usize = self.tab;
        match key.code {
            KeyCode::Enter | KeyCode::Esc | KeyCode::Tab => self.shell.set_focus(Focus::Details),
            _ => {
                if let Some(screen) = scope_in(&mut self.screens, tab) {
                    screen.pane.filter.handle_key(key);
                    screen.scroll_pane(0);
                }
            },
        }
    }

    /// `Esc` takes things off in the order they went on. The modal was taken
    /// before this is reached.
    fn escape(&mut self, key: KeyEvent) -> (r: AppAction)
        ensures
            (final(self)@, r@) == old(self)@.escaped(key),
    {
        proof {
            reveal(AppView::escaped);
        }
        let tab: usize = self.tab;
        let has_query = !self.query().is_empty();
        if self.kind().is_some() {
            // A scope tab: the pane's filter, then the query, then the pane.
            if self.pane_filtered() {
                if let Some(screen) = scope_in(&mut self.screens, tab) {
                    screen.pane.filter.clear();
                }
            } else if has_query {
                self.clear_query();
            } else if self.pane_open() {
                if let Some(screen) = scope_in(&mut self.screens, tab) {
                    screen.close_pane();
                }
                self.shell.set_focus(Focus::Table);
            }
            AppAction::Nothing
        } else if self.clear_query() {
            AppAction::Nothing
        } else {
            // An Azure tab: the query first; with none, the screen has it,
            // which is how Registries backs out of a repository.
            self.screen_key(key)
        }
    }

    /// `r`: the open tab's half read again now. A scope is one namespace; the
    /// Azure half is every vault and registry.
    fn refresh(&mut self) -> (r: AppAction)
        ensures
            (final(self)@, r@) == old(self)@.refreshed(),
    {
        proof {
            reveal(AppView::refreshed);
        }
        let tab: usize = self.tab;
        if tab >= self.tabs.len() {
            return AppAction::Nothing;
        }
        match &self.tabs[tab] {
            Tab::Scope(scope) => {
                let mut said = "Reading ".to_owned();
                said.push_str(scope.scope.describe().as_str());
                said.push_str("…");
                self.shell.set_status(said.as_str());
                if let Some(screen) = scope_in(&mut self.screens, tab) {
                    screen.on_refresh();
                }
                AppAction::Kube(kube::Request::Refresh(tab))
            },
            _ => {
                self.on_azure_refresh();
                AppAction::Azure(worker::Request::Refresh)
            },
        }
    }

    fn to_events(&mut self) -> (r: AppAction)
        ensures
            (final(self)@, r@) == old(self)@.to_events(),
    {
        proof {
            reveal(AppView::to_events);
        }
        let tab: usize = self.tab;
        if let (Some(_), Some(data)) = (scope_tab(&self.tabs, tab), scope_data(&self.store, tab)) {
            if let Some(screen) = scope_in(&mut self.screens, tab) {
                screen.events_for_selected_pod(data);
            }
        }
        self.shell.set_focus(Focus::Table);
        AppAction::Kube(kube::Request::Showing(tab, Kind::Events))
    }

    fn ask_rollout(&mut self)
        ensures
            final(self)@ == old(self)@.rollout_asked(),
    {
        proof {
            reveal(AppView::rollout_asked);
        }
        let tab: usize = self.tab;
        if let (Some(_), Some(data)) = (scope_tab(&self.tabs, tab), scope_data(&self.store, tab)) {
            if let Some(screen) = scope_in(&mut self.screens, tab) {
                screen.rollout_prompt(&mut self.shell, data);
            }
        }
    }

    fn toggle_previous(&mut self)
        ensures
            final(self)@ == old(self)@.previous_toggled(),
    {
        proof {
            reveal(AppView::previous_toggled);
        }
        let tab: usize = self.tab;
        if let (Some(_), Some(_)) = (scope_tab(&self.tabs, tab), scope_data(&self.store, tab)) {
            if let Some(screen) = scope_in(&mut self.screens, tab) {
                screen.toggle_previous(&mut self.shell);
            }
        }
    }

    fn change_container(&mut self)
        ensures
            final(self)@ == old(self)@.container_changed(),
    {
        proof {
            reveal(AppView::container_changed);
        }
        let tab: usize = self.tab;
        if let (Some(_), Some(data)) = (scope_tab(&self.tabs, tab), scope_data(&self.store, tab)) {
            if let Some(screen) = scope_in(&mut self.screens, tab) {
                screen.next_container(&mut self.shell, data);
            }
        }
    }

    fn toggle_zoom(&mut self)
        ensures
            final(self)@ == old(self)@.zoomed(),
    {
        proof {
            reveal(AppView::zoomed);
        }
        let tab: usize = self.tab;
        if let (Some(_), Some(_)) = (scope_tab(&self.tabs, tab), scope_data(&self.store, tab)) {
            if let Some(screen) = scope_in(&mut self.screens, tab) {
                screen.toggle_zoom();
            }
        }
    }

    fn copy_name(&self) -> (r: AppAction)
        ensures
            r@ == self@.name_copied(),
    {
        proof {
            reveal(AppView::name_copied);
        }
        let tab: usize = self.tab;
        if let (Some(_), Some(data)) = (scope_tab(&self.tabs, tab), scope_data(&self.store, tab)) {
            if tab < self.screens.len() {
                if let Some(screen) = self.screens[tab].scope() {
                    if let Some(name) = screen.selected_name(data) {
                        let mut label = "Copied ".to_owned();
                        label.push_str(name.as_str());
                        return AppAction::Copy { text: name, label };
                    }
                }
            }
        }
        AppAction::Nothing
    }

    fn copy_line(&self) -> (r: AppAction)
        ensures
            r@ == self@.line_copied(),
    {
        proof {
            reveal(AppView::line_copied);
        }
        let tab: usize = self.tab;
        if let (Some(scope), Some(data)) = (
            scope_tab(&self.tabs, tab),
            scope_data(&self.store, tab),
        ) {
            if tab < self.screens.len() {
                if let Some(screen) = self.screens[tab].scope() {
                    if let Some(line) = screen.kubectl_line(scope, data) {
                        let mut label = "Copied `".to_owned();
                        label.push_str(line.as_str());
                        label.push_str("`");
                        return AppAction::Copy { text: line, label };
                    }
                }
            }
        }
        AppAction::Nothing
    }

    /// The keys a scope tab has on top of the shared ones: the kinds, the
    /// toolbar, the pane, and the copies.
    fn scope_key(&mut self, kind: Kind, key: KeyEvent) -> (r: AppAction)
        ensures
            (final(self)@, r@) == old(self)@.scope_pressed(kind, key),
    {
        proof {
            reveal(AppView::scope_pressed);
        }
        let pods = kind == Kind::Pods;
        let keyed = kind == Kind::ConfigMaps || kind == Kind::Secrets;
        match key.code {
            // The kinds. `e` on a pod is that pod's events.
            KeyCode::Char('p') => self.set_kind(Kind::Pods),
            KeyCode::Char('e') => if pods {
                self.to_events()
            } else {
                self.set_kind(Kind::Events)
            },
            KeyCode::Char('m') => self.set_kind(Kind::ConfigMaps),
            KeyCode::Char('s') => self.set_kind(Kind::Secrets),
            KeyCode::Enter => match kind {
                Kind::Pods => self.button(Button::Logs),
                Kind::Events => self.button(Button::Pod),
                Kind::ConfigMaps | Kind::Secrets => self.button(Button::Value),
            },
            KeyCode::Char('d') => self.button(Button::Describe),
            KeyCode::Char('v') => if keyed {
                self.button(Button::Value)
            } else {
                self.button(Button::Yaml)
            },
            KeyCode::Char('l') if pods => self.button(Button::Logs),
            KeyCode::Char('b') if pods => self.button(Button::Bash),
            KeyCode::Char('x') if pods => self.button(Button::Restart),
            KeyCode::Char('X') if pods => {
                self.ask_rollout();
                AppAction::Nothing
            },
            KeyCode::Char('=') if pods => self.button(Button::Scale),
            KeyCode::Char('b') | KeyCode::Char('x') | KeyCode::Char('X') | KeyCode::Char('=')
            | KeyCode::Char('l') => {
                self.shell.set_status("That is a pod's key: p for the pods");
                AppAction::Nothing
            },
            KeyCode::Char('P') if pods => {
                self.toggle_previous();
                AppAction::Nothing
            },
            KeyCode::Char('C') if pods => {
                self.change_container();
                AppAction::Nothing
            },
            KeyCode::Char('z') => {
                self.toggle_zoom();
                AppAction::Nothing
            },
            KeyCode::Char('y') => if keyed {
                self.button(Button::Copy)
            } else {
                self.copy_name()
            },
            KeyCode::Char('Y') => self.copy_line(),
            _ => self.screen_key(key),
        }
    }

    /// A key no box, menu or question takes.
    fn command(&mut self, key: KeyEvent) -> (r: AppAction)
        ensures
            (final(self)@, r@) == old(self)@.commanded(key),
    {
        proof {
            reveal(AppView::commanded);
        }
        if let Some(index) = index_of(key.code) {
            return self.switch_to(index);
        }
        match key.code {
            KeyCode::Char('[') | KeyCode::Left => self.step_tab(false),
            KeyCode::Char(']') | KeyCode::Right => self.step_tab(true),
            KeyCode::Char('?') => {
                self.shell.set_help(true);
                AppAction::Nothing
            },
            KeyCode::Char('q') => AppAction::Quit,
            KeyCode::Esc => self.escape(key),
            KeyCode::Char('r') => self.refresh(),
            KeyCode::Char('/') => {
                let in_pane = self.pane_open() && self.shell.has_focus(Focus::Details);
                self.shell.set_focus(
                    if in_pane {
                        Focus::PaneSearch
                    } else {
                        Focus::Search
                    },
                );
                AppAction::Nothing
            },
            KeyCode::Tab => {
                self.shell.toggle_focus();
                AppAction::Nothing
            },
            _ => match self.kind() {
                Some(kind) => self.scope_key(kind, key),
                None => self.screen_key(key),
            },
        }
    }

    /// One key. The global keys are matched here first; everything else goes
    /// to the tab, except while a box has focus, which takes everything but
    /// `Esc`, `Enter` and `Tab`.
    pub fn handle_key(&mut self, key: KeyEvent) -> (r: AppAction)
        ensures
            (final(self)@, r@) == old(self)@.pressed(key),
    {
        proof {
            reveal(AppView::pressed);
        }
        if !key.pressed {
            return AppAction::Nothing;
        }
        if key.control && key.code == KeyCode::Char('c') {
            return AppAction::Quit;
        }
        if self.shell.help_open {
            // The help takes every key: the one thing it can do is close.
            self.shell.set_help(false);
            return AppAction::Nothing;
        }
        if self.asks() {
            return self.key_in_modal(key);
        }
        if let Some((menu, at)) = self.shell.menu {
            return self.menu_key(menu, at, key);
        }
        if self.shell.has_focus(Focus::Search) {
            self.key_in_search(key);
            return AppAction::Nothing;
        }
        if self.shell.has_focus(Focus::PaneSearch) {
            self.key_in_pane_search(key);
            return AppAction::Nothing;
        }
        self.command(key)
    }

    /// A paste, which bracketed paste hands over whole. It goes into whichever
    /// box has focus, and nowhere otherwise.
    pub fn handle_paste(&mut self, text: &str) -> (r: AppAction)
        ensures
            final(self)@ == old(self)@.pasted(text@),
            r is Nothing,
    {
        proof {
            reveal(AppView::pasted);
        }
        let tab: usize = self.tab;
        match self.shell.focus {
            Focus::Search => {
                if tab < self.screens.len() {
                    input_in(&mut self.screens, tab).paste(text);
                }
            },
            Focus::PaneSearch => {
                if let Some(screen) = scope_in(&mut self.screens, tab) {
                    screen.pane.filter.paste(text);
                }
            },
            _ => {},
        }
        AppAction::Nothing
    }
}

/// The place one further on, or one back, round the ends.
fn turned(at: usize, forward: bool, count: usize) -> (r: usize)
    requires
        count > 0,
    ensures
        r == if forward {
            (at + 1) % (count as int)
        } else {
            (at - 1) % (count as int)
        },
        !forward ==> r == (at + count - 1) % (count as int),
        r < count,
{
    let place: usize = at % count;
    proof {
        vstd::arithmetic::div_mod::lemma_fundamental_div_mod(at as int, count as int);
        vstd::arithmetic::div_mod::lemma_mod_bound(at as int, count as int);
    }
    let ghost q = at as int / count as int;
    if forward {
        let r: usize = if place + 1 == count {
            0
        } else {
            place + 1
        };
        proof {
            if place + 1 == count {
                assert(at + 1 == (q + 1) * count + 0) by (nonlinear_arith)
                    requires
                        at == count * q + place,
                        place + 1 == count,
                ;
                vstd::arithmetic::div_mod::lemma_fundamental_div_mod_converse(
                    at + 1,
                    count as int,
                    q + 1,
                    0,
                );
            } else {
                assert(at + 1 == q * count + (place + 1)) by (nonlinear_arith)
                    requires
                        at == count * q + place,
                ;
                vstd::arithmetic::div_mod::lemma_fundamental_div_mod_converse(
                    at + 1,
                    count as int,
                    q,
                    place + 1,
                );
            }
        }
        r
    } else {
        let r: usize = if place == 0 {
            count - 1
        } else {
            place - 1
        };
        proof {
            if place == 0 {
                assert(at - 1 == (q - 1) * count + (count - 1)) by (nonlinear_arith)
                    requires
                        at == count * q + place,
                        place == 0,
                ;
                assert(at + count - 1 == q * count + (count - 1)) by (nonlinear_arith)
                    requires
                        at == count * q + place,
                        place == 0,
                ;
                vstd::arithmetic::div_mod::lemma_fundamental_div_mod_converse(
                    at - 1,
                    count as int,
                    q - 1,
                    count - 1,
                );
                vstd::arithmetic::div_mod::lemma_fundamental_div_mod_converse(
                    at + count - 1,
                    count as int,
                    q,
                    count - 1,
                );
            } else {
                assert(at - 1 == q * count + (place - 1)) by (nonlinear_arith)
                    requires
                        at == count * q + place,
                ;
                assert(at + count - 1 == (q + 1) * count + (place - 1)) by (nonlinear_arith)
                    requires
                        at == count * q + place,
                ;
                vstd::arithmetic::div_mod::lemma_fundamental_div_mod_converse(
                    at - 1,
                    count as int,
                    q,
                    place - 1,
                );
                vstd::arithmetic::div_mod::lemma_fundamental_div_mod_converse(
                    at + count - 1,
                    count as int,
                    q + 1,
                    place - 1,
                );
            }
        }
        r
    }
}

/// The number a key from `1` to `9` names, less one.
fn index_of(code: KeyCode) -> (r: Option<usize>)
    ensures
        r == super::state::numbered(code),
{
    match code {
        KeyCode::Char(c) => if '1' <= c && c <= '9' {
            Some((c as u32 - '1' as u32) as usize)
        } else {
            None
        },
        _ => None,
    }
}

} // verus!
