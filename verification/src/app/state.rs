//! The program as a whole, and what each key, click and piece of news makes of
//! it.

use vstd::prelude::*;

use super::owners::replicas_said;
use super::scope::{acted_said, deleted_said, value_said, ScopeView};
use super::screen::{asked_of_kube, ActionView, Button, Tab, Target};
use super::screens::{Screen, ScreenView};
use super::secrets::{answer_view, elapsed, REST};
use super::shell::{topmost, Focus, Menu, ShellView};
use crate::columns::ColumnId;
use crate::filter::{env_among, env_line, line_of, query_with_env, words_of, Env, ENV_COUNT};
use crate::input::{InputView, KeyCode, KeyEvent, MouseButton, MouseEvent, MouseEventKind};
use crate::kube::{self, said, text_said, Kind, LogView, RequestView, KIND_COUNT};
use crate::session::{SessionTabView, SessionView};
use crate::store::{AzureStore, Problem, ScopeData, Store};
use crate::text::{decimal, texts};
use crate::timestamp::{age_text, seconds_between, Timestamp};
use crate::worker;

verus! {

/// What the program holds.
pub struct AppView {
    pub shell: ShellView,
    pub tabs: Seq<Tab>,
    pub tab: usize,
    pub screens: Seq<ScreenView>,
    pub store: Store,
    pub cache_dirty: bool,
    pub following: Option<LogView>,
    pub rested: Option<(usize, usize, u64)>,
}

pub open spec fn screen_views(screens: Seq<Screen>) -> Seq<ScreenView> {
    screens.map_values(|screen: Screen| screen@)
}

/// The screen a tab opens with.
pub open spec fn opening_screen(tab: Tab) -> ScreenView {
    match tab {
        Tab::Scope(tab) => ScreenView::Scope(ScopeView::opening(tab.scope.namespace is None)),
        Tab::Secrets => ScreenView::Secrets(super::secrets::SecretsView::opening()),
        Tab::Registries => ScreenView::Registries(super::registries::RegistriesView::opening()),
    }
}

/// How many of the tabs are scopes.
pub open spec fn scope_count(tabs: Seq<Tab>) -> int
    decreases tabs.len(),
{
    if tabs.len() == 0 {
        0
    } else {
        scope_count(tabs.drop_last()) + if tabs.last() is Scope {
            1int
        } else {
            0
        }
    }
}

/// Where the first tab of that key stands, or how many tabs there are where
/// there is none.
pub open spec fn tab_position(tabs: Seq<Tab>, key: Seq<char>) -> int
    decreases tabs.len(),
{
    if tabs.len() == 0 || tabs[0].key_text() == key {
        0
    } else {
        1 + tab_position(tabs.skip(1), key)
    }
}

/// Where the Secrets screen stands, or how many screens there are where there
/// is none.
pub open spec fn secrets_at(screens: Seq<ScreenView>) -> int
    decreases screens.len(),
{
    if screens.len() == 0 || screens[0] is Secrets {
        0
    } else {
        1 + secrets_at(screens.skip(1))
    }
}

/// Where the Registries screen stands, or how many screens there are where
/// there is none.
pub open spec fn registries_at(screens: Seq<ScreenView>) -> int
    decreases screens.len(),
{
    if screens.len() == 0 || screens[0] is Registries {
        0
    } else {
        1 + registries_at(screens.skip(1))
    }
}

/// A scope tab's screen among the screens.
pub open spec fn scope_among(screens: Seq<ScreenView>, at: usize) -> Option<ScopeView> {
    if at < screens.len() {
        match screens[at as int] {
            ScreenView::Scope(screen) => Some(screen),
            _ => None,
        }
    } else {
        None
    }
}

/// How many lines a menu has.
pub open spec fn menu_lines(menu: Menu) -> int {
    match menu {
        Menu::Env => ENV_COUNT as int,
        Menu::Kind => KIND_COUNT as int,
    }
}

/// What of a scope tab a toolbar works on: the context it reads, the screen,
/// and what is on file.
pub struct Parts {
    pub context: Seq<char>,
    pub screen: ScopeView,
    pub data: ScopeData,
}

/// The number a key from `1` to `9` names, less one.
pub open spec fn numbered(code: KeyCode) -> Option<usize> {
    match code {
        KeyCode::Char(c) => if '1' <= c <= '9' {
            Some((c as u32 - '1' as u32) as usize)
        } else {
            None
        },
        _ => None,
    }
}

/// The keys that leave a box.
pub open spec fn leaves_the_box(code: KeyCode) -> bool {
    code == KeyCode::Enter || code == KeyCode::Esc || code == KeyCode::Tab
}

impl AppView {
    /// Whether this is an application as it starts over those tabs: the first
    /// is open, each with its screen as it opens, and no worker has been told
    /// to follow anything.
    pub open spec fn is_fresh(self, tabs: Seq<Tab>) -> bool {
        &&& self.tabs == tabs
        &&& tabs.len() <= usize::MAX
        &&& self.tab == 0
        &&& self.screens == tabs.map_values(|tab: Tab| opening_screen(tab))
        &&& self.following is None
        &&& self.rested is None
    }

    pub open spec fn scope_at(self, at: usize) -> Option<ScopeView> {
        scope_among(self.screens, at)
    }

    pub open spec fn data_at(self, at: usize) -> Option<ScopeData> {
        if at < self.store.scopes@.len() {
            Some(self.store.scopes@[at as int])
        } else {
            None
        }
    }

    /// The kind the open tab shows, when it is a scope tab.
    pub open spec fn kind(self) -> Option<Kind> {
        match self.scope_at(self.tab) {
            Some(screen) => Some(screen.kind),
            None => None,
        }
    }

    /// Whether a question stands on top of the open table.
    pub open spec fn asks(self) -> bool {
        self.scope_at(self.tab) matches Some(screen) && screen.modal is Some
    }

    /// The open tab when it is a scope with its data on file.
    pub open spec fn parts(self) -> Option<Parts> {
        if self.tab < self.tabs.len() {
            match (self.tabs[self.tab as int], self.scope_at(self.tab), self.data_at(self.tab)) {
                (Tab::Scope(tab), Some(screen), Some(data)) => Some(
                    Parts { context: tab.scope@.context, screen, data },
                ),
                _ => None,
            }
        } else {
            None
        }
    }

    pub open spec fn with_shell(self, shell: ShellView) -> Self {
        AppView { shell, ..self }
    }

    pub open spec fn with_focus(self, focus: Focus) -> Self {
        AppView { shell: self.shell.focused(focus), ..self }
    }

    pub open spec fn with_menu(self, menu: Option<(Menu, usize)>) -> Self {
        AppView { shell: ShellView { menu, ..self.shell }, ..self }
    }

    pub open spec fn with_scope(self, at: usize, screen: ScopeView) -> Self {
        AppView { screens: self.screens.update(at as int, ScreenView::Scope(screen)), ..self }
    }

    pub open spec fn with_screen(self, screen: ScreenView) -> Self {
        AppView { screens: self.screens.update(self.tab as int, screen), ..self }
    }

    // ── The search box ─────────────────────────────────────────────────

    /// What the box of the table showing says.
    pub open spec fn query(self) -> Seq<char> {
        if self.tab < self.screens.len() {
            self.screens[self.tab as int].input().text
        } else {
            ""@
        }
    }

    /// The environment the query is filtered to.
    pub open spec fn env(self) -> Option<Env> {
        env_among(words_of(self.query()))
    }

    /// With the box of the table showing, where there is one, holding that.
    pub open spec fn with_input(self, input: InputView) -> Self {
        self.with_screen(self.screens[self.tab as int].with_input(input))
    }

    pub open spec fn box_pressed(self, key: KeyEvent) -> Self {
        if self.tab < self.screens.len() {
            self.with_input(self.screens[self.tab as int].input().pressed(key))
        } else {
            self
        }
    }

    pub open spec fn box_pasted(self, text: Seq<char>) -> Self {
        if self.tab < self.screens.len() {
            self.with_input(self.screens[self.tab as int].input().pasted(text))
        } else {
            self
        }
    }

    /// With the filter taken off.
    pub open spec fn cleared(self) -> Self {
        if self.tab < self.screens.len() {
            self.with_input(InputView::empty())
        } else {
            self
        }
    }

    /// With an environment chosen from the menu, which goes into the box.
    #[verifier::opaque]
    pub open spec fn with_env(self, env: Option<Env>) -> Self {
        (if self.tab < self.screens.len() {
            self.with_input(
                InputView::holding(
                    query_with_env(self.screens[self.tab as int].input().text, env),
                ),
            )
        } else {
            self
        }).with_menu(None)
    }

    // ── Tabs and kinds ─────────────────────────────────────────────────

    /// Once both Azure screens are looked away from.
    pub open spec fn azure_left(self) -> Self {
        AppView {
            screens: self.screens.map_values(|screen: ScreenView| screen.azure_left()),
            ..self
        }
    }

    /// Once the open scope tab, where it is one, is looked away from.
    pub open spec fn scope_left(self) -> Self {
        match self.scope_at(self.tab) {
            Some(screen) => self.with_scope(self.tab, screen.looked_away()),
            None => self,
        }
    }

    /// Another tab. A value on the one that is left goes.
    #[verifier::opaque]
    pub open spec fn switched(self, to: usize) -> (Self, ActionView) {
        if self.tab == to || to >= self.tabs.len() {
            (self, ActionView::Nothing)
        } else {
            let then = (AppView { tab: to, ..self.scope_left() }).with_focus(
                Focus::Table,
            ).azure_left();
            (
                then,
                match then.kind() {
                    Some(kind) => ActionView::Kube(RequestView::Showing(to, kind)),
                    None => ActionView::Nothing,
                },
            )
        }
    }

    /// The tab that many to the right, round the ends.
    pub open spec fn stepped(self, by: int) -> (Self, ActionView) {
        if self.tabs.len() == 0 {
            (self, ActionView::Nothing)
        } else {
            self.switched(((self.tab + by) % (self.tabs.len() as int)) as usize)
        }
    }

    /// Another kind on this scope tab.
    #[verifier::opaque]
    pub open spec fn with_kind(self, kind: Kind) -> (Self, ActionView) {
        match self.scope_at(self.tab) {
            Some(screen) if screen.kind != kind => (
                self.with_scope(self.tab, screen.showing(kind)).with_focus(Focus::Table),
                ActionView::Kube(RequestView::Showing(self.tab, kind)),
            ),
            _ => (self, ActionView::Nothing),
        }
    }

    // ── Keys ───────────────────────────────────────────────────────────

    /// One toolbar button.
    #[verifier::opaque]
    pub open spec fn pushed(self, button: Button) -> (Self, ActionView) {
        match self.parts() {
            Some(parts) => {
                let (screen, shell, action) = parts.screen.pushed(
                    self.shell,
                    parts.context,
                    self.tab,
                    parts.data,
                    button,
                );
                (self.with_scope(self.tab, screen).with_shell(shell), action)
            },
            None => (self, ActionView::Nothing),
        }
    }

    /// One key the screen itself has.
    #[verifier::opaque]
    pub open spec fn screen_pressed(self, key: KeyEvent) -> (Self, ActionView) {
        if self.tab < self.screens.len() {
            let (screen, shell, action) = self.screens[self.tab as int].pressed(
                self.shell,
                self.data_at(self.tab),
                self.store.azure,
                key,
            );
            (self.with_screen(screen).with_shell(shell), action)
        } else {
            (self, ActionView::Nothing)
        }
    }

    /// A modal's answer, however it was given.
    #[verifier::opaque]
    pub open spec fn modal_pressed(self, key: KeyEvent) -> (Self, ActionView) {
        match self.scope_at(self.tab) {
            Some(screen) => {
                let (then, shell, request) = screen.modal_pressed(self.shell, self.tab, key);
                (self.with_scope(self.tab, then).with_shell(shell), asked_of_kube(request))
            },
            None => (self, ActionView::Nothing),
        }
    }

    /// The open drop-down's keys.
    #[verifier::opaque]
    pub open spec fn menu_pressed(self, menu: Menu, at: usize, code: KeyCode) -> (
        Self,
        ActionView,
    ) {
        let count = menu_lines(menu);
        match code {
            KeyCode::Char('j') | KeyCode::Down => (
                self.with_menu(Some((menu, ((at + 1) % count) as usize))),
                ActionView::Nothing,
            ),
            KeyCode::Char('k') | KeyCode::Up => (
                self.with_menu(Some((menu, ((at + count - 1) % count) as usize))),
                ActionView::Nothing,
            ),
            KeyCode::Enter => match menu {
                Menu::Env => (self.with_env(env_line(at as int)), ActionView::Nothing),
                Menu::Kind => self.with_menu(None).with_kind(Kind::at(at as int)),
            },
            _ => (self.with_menu(None), ActionView::Nothing),
        }
    }

    /// A key while the search box has focus.
    #[verifier::opaque]
    pub open spec fn search_pressed(self, key: KeyEvent) -> Self {
        if leaves_the_box(key.code) {
            self.with_focus(Focus::Table)
        } else {
            self.box_pressed(key)
        }
    }

    /// A key while the pane's filter has focus.
    #[verifier::opaque]
    pub open spec fn pane_search_pressed(self, key: KeyEvent) -> Self {
        if leaves_the_box(key.code) {
            self.with_focus(Focus::Details)
        } else {
            match self.scope_at(self.tab) {
                Some(screen) => self.with_scope(
                    self.tab,
                    screen.with_filter(screen.pane.filter.pressed(key)).pane_scrolled(0),
                ),
                None => self,
            }
        }
    }

    /// `Esc` takes things off in the order they went on: on a scope tab the
    /// pane's filter, then the query, then the pane; on an Azure tab the
    /// query, and with none the screen has it.
    #[verifier::opaque]
    pub open spec fn escaped(self, key: KeyEvent) -> (Self, ActionView) {
        match self.scope_at(self.tab) {
            Some(screen) => (
                if screen.pane.open && screen.pane.filter.text.len() > 0 {
                    self.with_scope(self.tab, screen.with_filter(InputView::empty()))
                } else if self.query().len() > 0 {
                    self.cleared()
                } else if screen.pane.open {
                    self.with_scope(self.tab, screen.pane_closed()).with_focus(Focus::Table)
                } else {
                    self
                },
                ActionView::Nothing,
            ),
            None => if self.query().len() > 0 {
                (self.cleared(), ActionView::Nothing)
            } else {
                self.cleared().screen_pressed(key)
            },
        }
    }

    /// `r`: the open tab's half read again now.
    #[verifier::opaque]
    pub open spec fn refreshed(self) -> (Self, ActionView) {
        if self.tab >= self.tabs.len() {
            (self, ActionView::Nothing)
        } else {
            match self.tabs[self.tab as int] {
                Tab::Scope(tab) => {
                    let then = self.with_shell(
                        self.shell.saying("Reading "@ + tab.scope@.described() + "…"@),
                    );
                    (
                        match self.scope_at(self.tab) {
                            Some(screen) => then.with_scope(self.tab, screen.refreshed()),
                            None => then,
                        },
                        ActionView::Kube(RequestView::Refresh(self.tab)),
                    )
                },
                _ => (self.azure_left(), ActionView::Azure(worker::RequestView::Refresh)),
            }
        }
    }

    /// `e` on a pod: that pod's events.
    #[verifier::opaque]
    pub open spec fn to_events(self) -> (Self, ActionView) {
        (
            match self.parts() {
                Some(parts) => self.with_scope(self.tab, parts.screen.to_events(parts.data)),
                None => self,
            }.with_focus(Focus::Table),
            ActionView::Kube(RequestView::Showing(self.tab, Kind::Events)),
        )
    }

    /// `X`: asks about a rollout restart.
    #[verifier::opaque]
    pub open spec fn rollout_asked(self) -> Self {
        match self.parts() {
            Some(parts) => {
                let (screen, shell) = parts.screen.rollout_asked(self.shell, parts.data);
                self.with_scope(self.tab, screen).with_shell(shell)
            },
            None => self,
        }
    }

    /// `P`: the log from before the last restart, and back.
    #[verifier::opaque]
    pub open spec fn previous_toggled(self) -> Self {
        match self.parts() {
            Some(parts) => {
                let (screen, shell) = parts.screen.previous_toggled(self.shell);
                self.with_scope(self.tab, screen).with_shell(shell)
            },
            None => self,
        }
    }

    /// `C`: the log of the pod's next container.
    #[verifier::opaque]
    pub open spec fn container_changed(self) -> Self {
        match self.parts() {
            Some(parts) => {
                let (screen, shell) = parts.screen.container_changed(self.shell, parts.data);
                self.with_scope(self.tab, screen).with_shell(shell)
            },
            None => self,
        }
    }

    /// `z`: the text pane alone, and back.
    #[verifier::opaque]
    pub open spec fn zoomed(self) -> Self {
        match self.parts() {
            Some(parts) => self.with_scope(
                self.tab,
                ScopeView { pane: parts.screen.pane.zoomed(), ..parts.screen },
            ),
            None => self,
        }
    }

    /// `y` on a pod or an event: its name.
    #[verifier::opaque]
    pub open spec fn name_copied(self) -> ActionView {
        match self.parts() {
            Some(parts) => match parts.screen.selected_object(parts.data) {
                Some(object) => ActionView::Copy {
                    text: object.name,
                    label: "Copied "@ + object.name,
                },
                None => ActionView::Nothing,
            },
            None => ActionView::Nothing,
        }
    }

    /// `Y`: the `kubectl` line.
    #[verifier::opaque]
    pub open spec fn line_copied(self) -> ActionView {
        match self.parts() {
            Some(parts) => match parts.screen.kubectl(parts.context, parts.data) {
                Some(line) => ActionView::Copy { text: line, label: "Copied `"@ + line + "`"@ },
                None => ActionView::Nothing,
            },
            None => ActionView::Nothing,
        }
    }

    /// The keys a scope tab has on top of the shared ones.
    #[verifier::opaque]
    pub open spec fn scope_pressed(self, kind: Kind, key: KeyEvent) -> (Self, ActionView) {
        let pods = kind == Kind::Pods;
        let keyed = kind == Kind::ConfigMaps || kind == Kind::Secrets;
        match key.code {
            KeyCode::Char('p') => self.with_kind(Kind::Pods),
            KeyCode::Char('e') => if pods {
                self.to_events()
            } else {
                self.with_kind(Kind::Events)
            },
            KeyCode::Char('m') => self.with_kind(Kind::ConfigMaps),
            KeyCode::Char('s') => self.with_kind(Kind::Secrets),
            KeyCode::Enter => match kind {
                Kind::Pods => self.pushed(Button::Logs),
                Kind::Events => self.pushed(Button::Pod),
                _ => self.pushed(Button::Value),
            },
            KeyCode::Char('d') => self.pushed(Button::Describe),
            KeyCode::Char('v') => self.pushed(
                if keyed {
                    Button::Value
                } else {
                    Button::Yaml
                },
            ),
            KeyCode::Char('l') if pods => self.pushed(Button::Logs),
            KeyCode::Char('b') if pods => self.pushed(Button::Bash),
            KeyCode::Char('x') if pods => self.pushed(Button::Restart),
            KeyCode::Char('X') if pods => (self.rollout_asked(), ActionView::Nothing),
            KeyCode::Char('=') if pods => self.pushed(Button::Scale),
            KeyCode::Char('b') | KeyCode::Char('x') | KeyCode::Char('X') | KeyCode::Char('=')
            | KeyCode::Char('l') => (
                self.with_shell(self.shell.saying("That is a pod's key: p for the pods"@)),
                ActionView::Nothing,
            ),
            KeyCode::Char('P') if pods => (self.previous_toggled(), ActionView::Nothing),
            KeyCode::Char('C') if pods => (self.container_changed(), ActionView::Nothing),
            KeyCode::Char('z') => (self.zoomed(), ActionView::Nothing),
            KeyCode::Char('y') => if keyed {
                self.pushed(Button::Copy)
            } else {
                (self, self.name_copied())
            },
            KeyCode::Char('Y') => (self, self.line_copied()),
            _ => self.screen_pressed(key),
        }
    }

    /// A key no box, menu or question takes.
    #[verifier::opaque]
    pub open spec fn commanded(self, key: KeyEvent) -> (Self, ActionView) {
        match numbered(key.code) {
            Some(index) => self.switched(index),
            None => match key.code {
                KeyCode::Char('[') | KeyCode::Left => self.stepped(-1),
                KeyCode::Char(']') | KeyCode::Right => self.stepped(1),
                KeyCode::Char('?') => (
                    self.with_shell(ShellView { help_open: true, ..self.shell }),
                    ActionView::Nothing,
                ),
                KeyCode::Char('q') => (self, ActionView::Quit),
                KeyCode::Esc => self.escaped(key),
                KeyCode::Char('r') => self.refreshed(),
                KeyCode::Char('/') => {
                    let pane_open = self.scope_at(self.tab) matches Some(screen)
                        && screen.pane.open;
                    (
                        self.with_focus(
                            if pane_open && self.shell.focus == Focus::Details {
                                Focus::PaneSearch
                            } else {
                                Focus::Search
                            },
                        ),
                        ActionView::Nothing,
                    )
                },
                KeyCode::Tab => (
                    self.with_focus(
                        if self.shell.focus == Focus::Table {
                            Focus::Details
                        } else {
                            Focus::Table
                        },
                    ),
                    ActionView::Nothing,
                ),
                _ => match self.kind() {
                    Some(kind) => self.scope_pressed(kind, key),
                    None => self.screen_pressed(key),
                },
            },
        }
    }

    /// One key. Only a press counts; `Ctrl-C` always leaves; then the help,
    /// an open question, an open menu and a box with focus each take every
    /// key, in that order.
    #[verifier::opaque]
    pub open spec fn pressed(self, key: KeyEvent) -> (Self, ActionView) {
        if !key.pressed {
            (self, ActionView::Nothing)
        } else if key.control && key.code == KeyCode::Char('c') {
            (self, ActionView::Quit)
        } else if self.shell.help_open {
            (
                self.with_shell(ShellView { help_open: false, ..self.shell }),
                ActionView::Nothing,
            )
        } else if self.asks() {
            self.modal_pressed(key)
        } else {
            match self.shell.menu {
                Some((menu, at)) => self.menu_pressed(menu, at, key.code),
                None => if self.shell.focus == Focus::Search {
                    (self.search_pressed(key), ActionView::Nothing)
                } else if self.shell.focus == Focus::PaneSearch {
                    (self.pane_search_pressed(key), ActionView::Nothing)
                } else {
                    self.commanded(key)
                },
            }
        }
    }

    /// A paste, into whichever box has focus, and nowhere otherwise.
    #[verifier::opaque]
    pub open spec fn pasted(self, text: Seq<char>) -> Self {
        match self.shell.focus {
            Focus::Search => self.box_pasted(text),
            Focus::PaneSearch => match self.scope_at(self.tab) {
                Some(screen) => self.with_scope(
                    self.tab,
                    screen.with_filter(screen.pane.filter.pasted(text)),
                ),
                None => self,
            },
            _ => self,
        }
    }

    // ── The pointer ────────────────────────────────────────────────────

    /// The pointer while a question is open: its yes answers it, its body
    /// does nothing, a click anywhere else closes it.
    #[verifier::opaque]
    pub open spec fn modal_clicked(self, kind: MouseEventKind, target: Option<Target>) -> (
        Self,
        ActionView,
    ) {
        match self.scope_at(self.tab) {
            Some(screen) => if kind != MouseEventKind::Down(MouseButton::Left) {
                (self, ActionView::Nothing)
            } else {
                match target {
                    Some(Target::Confirm) => {
                        let (then, shell, request) = screen.confirmed(self.shell, self.tab);
                        (self.with_scope(self.tab, then).with_shell(shell), asked_of_kube(request))
                    },
                    Some(Target::Modal) => (self, ActionView::Nothing),
                    _ => (self.with_scope(self.tab, screen.dismissed()), ActionView::Nothing),
                }
            },
            None => (self, ActionView::Nothing),
        }
    }

    /// A click while a menu is open: one of its lines chooses, anywhere else
    /// closes it and does nothing more.
    #[verifier::opaque]
    pub open spec fn menu_clicked(self, menu: Menu, target: Option<Target>) -> (Self, ActionView) {
        match (menu, target) {
            (Menu::Env, Some(Target::EnvOption(env))) => (self.with_env(env), ActionView::Nothing),
            (Menu::Kind, Some(Target::KindOption(kind))) => self.with_menu(None).with_kind(kind),
            _ => (self.with_menu(None), ActionView::Nothing),
        }
    }

    /// A click on something drawn.
    #[verifier::opaque]
    pub open spec fn clicked(self, target: Target) -> (Self, ActionView) {
        match target {
            Target::Tab(index) => self.switched(index),
            Target::Header(ColumnId::Env) => (
                self.with_focus(Focus::Table).with_menu(
                    Some((Menu::Env, line_of(self.env()) as usize)),
                ),
                ActionView::Nothing,
            ),
            Target::KindPill => (
                self.with_menu(
                    match self.kind() {
                        Some(kind) => Some((Menu::Kind, kind.place() as usize)),
                        None => None,
                    },
                ),
                ActionView::Nothing,
            ),
            Target::KindOption(kind) => self.with_kind(kind),
            Target::Button(button) => self.pushed(button),
            Target::Help => (
                self.with_shell(
                    ShellView { help_open: !self.shell.help_open, ..self.shell },
                ),
                ActionView::Nothing,
            ),
            Target::SearchField => (self.with_focus(Focus::Search), ActionView::Nothing),
            Target::ClearSearch => (self.cleared(), ActionView::Nothing),
            Target::Details | Target::TextPane => (
                self.with_focus(Focus::Details),
                ActionView::Nothing,
            ),
            _ => {
                let then = self.with_focus(Focus::Table);
                if self.tab < self.screens.len() {
                    let (screen, shell) = self.screens[self.tab as int].clicked(
                        then.shell,
                        target,
                    );
                    (then.with_screen(screen).with_shell(shell), ActionView::Nothing)
                } else {
                    (then, ActionView::Nothing)
                }
            },
        }
    }

    pub open spec fn wheeled(self, target: Option<Target>, delta: int) -> Self {
        if self.tab < self.screens.len() {
            self.with_screen(self.screens[self.tab as int].wheeled(target, delta))
        } else {
            self
        }
    }

    /// One thing the pointer did, resolved against what was drawn last frame.
    #[verifier::opaque]
    pub open spec fn pointed(self, event: MouseEvent) -> (Self, ActionView) {
        let target = topmost(self.shell.regions, event.column, event.row);
        if self.asks() {
            self.modal_clicked(event.kind, target)
        } else {
            match event.kind {
                MouseEventKind::Down(_) => match self.shell.menu {
                    Some((menu, _)) => self.menu_clicked(menu, target),
                    None => match target {
                        Some(target) => self.clicked(target),
                        None => (self, ActionView::Nothing),
                    },
                },
                MouseEventKind::ScrollDown => (self.wheeled(target, 3), ActionView::Nothing),
                MouseEventKind::ScrollUp => (self.wheeled(target, -3), ActionView::Nothing),
                MouseEventKind::Other => (self, ActionView::Nothing),
            }
        }
    }

    // ── News ───────────────────────────────────────────────────────────

    pub open spec fn with_azure(self, azure: AzureStore) -> Self {
        AppView { store: Store { azure, scopes: self.store.scopes }, ..self }
    }

    /// Once the vaults' rows have moved from `was`: the Secrets table is
    /// rebuilt under a cursor that stays on its own row.
    #[verifier::opaque]
    pub open spec fn secrets_reread(self, was: AzureStore, today: Timestamp) -> Self {
        let at = secrets_at(self.screens);
        if at < self.screens.len() {
            let screen = self.screens[at]->Secrets_0;
            AppView {
                screens: self.screens.update(
                    at,
                    ScreenView::Secrets(
                        screen.spoiled().kept(self.store.azure, screen.identity(was), today),
                    ),
                ),
                ..self
            }
        } else {
            self
        }
    }

    /// Once the registries' rows have moved from `was`.
    #[verifier::opaque]
    pub open spec fn repositories_reread(self, was: AzureStore, today: Timestamp) -> Self {
        let at = registries_at(self.screens);
        if at < self.screens.len() {
            let screen = self.screens[at]->Registries_0;
            AppView {
                screens: self.screens.update(
                    at,
                    ScreenView::Registries(
                        screen.spoiled().kept(self.store.azure, screen.identity(was), today),
                    ),
                ),
                ..self
            }
        } else {
            self
        }
    }

    /// Once something a details pane shows has come: the tags are to be put
    /// in order again.
    #[verifier::opaque]
    pub open spec fn detail_reread(self) -> Self {
        let at = registries_at(self.screens);
        if at < self.screens.len() {
            AppView {
                screens: self.screens.update(
                    at,
                    ScreenView::Registries(self.screens[at]->Registries_0.spoiled()),
                ),
                ..self
            }
        } else {
            self
        }
    }

    /// Once a value has come: it goes to the Secrets screen, which shows it or
    /// copies it and keeps nothing either way.
    #[verifier::opaque]
    pub open spec fn value_come(
        self,
        vault: Seq<char>,
        name: Seq<char>,
        result: Result<(Seq<char>, Seq<char>), Seq<char>>,
        now: u64,
    ) -> (Self, ActionView) {
        let at = secrets_at(self.screens);
        if at < self.screens.len() {
            let (screen, shell, action) = self.screens[at]->Secrets_0.answered(
                self.shell,
                self.store.azure,
                vault,
                name,
                result,
                now,
            );
            (
                AppView {
                    screens: self.screens.update(at, ScreenView::Secrets(screen)),
                    shell,
                    ..self
                },
                action,
            )
        } else {
            (self, ActionView::Nothing)
        }
    }

    /// Once news from the Azure worker has left `then` on file.
    #[verifier::opaque]
    pub open spec fn azure_told(
        self,
        event: worker::Event,
        then: AzureStore,
        now: u64,
        today: Timestamp,
    ) -> (Self, ActionView) {
        let was = self.store.azure;
        let told = self.with_azure(then);
        match event {
            worker::Event::Inventory(Ok(_)) => (
                told.secrets_reread(was, today),
                ActionView::Nothing,
            ),
            worker::Event::Secrets { result: Ok(_), .. } => (
                told.secrets_reread(was, today),
                ActionView::Nothing,
            ),
            worker::Event::Repositories { result: Ok(_), .. } => (
                told.repositories_reread(was, today),
                ActionView::Nothing,
            ),
            worker::Event::Repository { .. } => (
                told.repositories_reread(was, today),
                ActionView::Nothing,
            ),
            worker::Event::Tags { .. } => (told.detail_reread(), ActionView::Nothing),
            worker::Event::Manifest { .. } => (told.detail_reread(), ActionView::Nothing),
            worker::Event::Versions { .. } => (told.detail_reread(), ActionView::Nothing),
            worker::Event::Value { vault, name, result } => told.value_come(
                vault@,
                name@,
                answer_view(result),
                now,
            ),
            _ => (told, ActionView::Nothing),
        }
    }

    /// Once a read of one kind has landed over `was`: its list is rebuilt
    /// under a cursor that stays on its own row.
    #[verifier::opaque]
    pub open spec fn rows_read(self, was: Store, at: usize, kind: Kind) -> Self {
        if at >= was.scopes@.len() {
            self
        } else {
            let then = AppView { cache_dirty: self.cache_dirty || kind == Kind::Pods, ..self };
            match self.scope_at(at) {
                Some(screen) => then.with_scope(
                    at,
                    screen.reread(
                        kind,
                        self.store.scopes@[at as int],
                        screen.lists.identity(kind, was.scopes@[at as int]),
                    ),
                ),
                None => then,
            }
        }
    }

    /// Once a read of one kind has failed over `was`: said once, when it is
    /// the open tab's and the kind on screen.
    #[verifier::opaque]
    pub open spec fn read_failed(self, was: Store, at: usize, kind: Kind) -> Self {
        if at < was.scopes@.len() && at == self.tab && self.kind() == Some(kind) && at
            < self.tabs.len() {
            match (self.tabs[at as int], self.store.scopes@[at as int].summary(kind).1) {
                (Tab::Scope(tab), Some(message)) => if said(was.scopes@[at as int].summary(kind).1)
                    != Some(message@) {
                    self.with_shell(
                        self.shell.warning(
                            tab.scope@.described() + " "@ + kind.noun_text() + ": "@ + message@,
                        ),
                    )
                } else {
                    self
                },
                _ => self,
            }
        } else {
            self
        }
    }

    pub open spec fn read_landed(self, was: Store, at: usize, kind: Kind, ok: bool) -> Self {
        if ok {
            self.rows_read(was, at, kind)
        } else {
            self.read_failed(was, at, kind)
        }
    }

    /// News for the pane or the modal of the tab that asked; it touches no
    /// rows.
    #[verifier::opaque]
    pub open spec fn screen_told(self, event: kube::Event) -> (Self, ActionView) {
        let at = crate::store::scope_of(event);
        match self.scope_at(at) {
            None => (self, ActionView::Nothing),
            Some(screen) => match event {
                kube::Event::LogLines { target, lines, finished } => (
                    self.with_scope(at, screen.logged(target@, texts(lines@), finished)),
                    ActionView::Nothing,
                ),
                kube::Event::Text { kind, object, text, .. } => (
                    self.with_scope(at, screen.with_text(kind, object@, text_said(text))),
                    ActionView::Nothing,
                ),
                kube::Event::Deleted { key, error, .. } => (
                    match self.data_at(at) {
                        Some(data) => self.with_shell(
                            deleted_said(self.shell, data, key@, said(error)),
                        ),
                        None => self,
                    },
                    ActionView::Nothing,
                ),
                kube::Event::Acted { verb, object, error, .. } => (
                    self.with_shell(acted_said(self.shell, verb@, object@, said(error))),
                    ActionView::Nothing,
                ),
                kube::Event::Owner { object, replicas, .. } => (
                    self.with_scope(at, screen.with_owner(object@, replicas_said(replicas))),
                    ActionView::Nothing,
                ),
                kube::Event::SecretValue { object, key, copy, value, .. } => match self.data_at(
                    at,
                ) {
                    Some(data) => {
                        let (then, shell, action) = screen.answered(
                            self.shell,
                            data,
                            object@,
                            key@,
                            copy,
                            value_said(value),
                        );
                        (self.with_scope(at, then).with_shell(shell), action)
                    },
                    None => (self, ActionView::Nothing),
                },
                _ => (self, ActionView::Nothing),
            },
        }
    }

    /// Once news from a cluster's worker has left `then` on file.
    #[verifier::opaque]
    pub open spec fn kube_told(self, event: kube::Event, then: Store) -> (Self, ActionView) {
        let was = self.store;
        let told = AppView { store: then, ..self };
        match event {
            kube::Event::Pods { scope, pods } => (
                told.read_landed(was, scope, Kind::Pods, pods is Ok),
                ActionView::Nothing,
            ),
            kube::Event::Events { scope, events } => (
                told.read_landed(was, scope, Kind::Events, events is Ok),
                ActionView::Nothing,
            ),
            kube::Event::ConfigMaps { scope, configmaps } => (
                told.read_landed(was, scope, Kind::ConfigMaps, configmaps is Ok),
                ActionView::Nothing,
            ),
            kube::Event::Secrets { scope, secrets } => (
                told.read_landed(was, scope, Kind::Secrets, secrets is Ok),
                ActionView::Nothing,
            ),
            kube::Event::Reading { .. } => (told, ActionView::Nothing),
            _ => told.screen_told(event),
        }
    }

    // ── The clock ──────────────────────────────────────────────────────

    /// What the open screen has run out of or settled on.
    #[verifier::opaque]
    pub open spec fn screen_ticked(self, now: u64, today: Timestamp) -> (Self, Seq<ActionView>) {
        if self.tab < self.screens.len() {
            let (screen, request) = self.screens[self.tab as int].ticked(
                self.store.azure,
                now,
                today,
            );
            (
                self.with_screen(screen),
                match request {
                    Some(request) => seq![ActionView::Azure(request)],
                    None => Seq::empty(),
                },
            )
        } else {
            (self, Seq::empty())
        }
    }

    /// What the pane of the open tab should be following.
    pub open spec fn desired(self) -> Option<LogView> {
        match (self.scope_at(self.tab), self.data_at(self.tab)) {
            (Some(screen), Some(data)) => screen.desired_log(self.tab, data),
            _ => None,
        }
    }

    /// The follow, where it is not what the worker was last told.
    #[verifier::opaque]
    pub open spec fn follow_ticked(self) -> (Self, Seq<ActionView>) {
        let desired = self.desired();
        if desired == self.following {
            (self, Seq::empty())
        } else {
            let then = AppView { following: desired, ..self };
            (
                match self.scope_at(self.tab) {
                    Some(screen) => then.with_scope(self.tab, screen.following(desired)),
                    None => then,
                },
                seq![
                    ActionView::Kube(
                        match desired {
                            Some(target) => RequestView::Follow(target),
                            None => RequestView::Unfollow,
                        },
                    ),
                ],
            )
        }
    }

    /// Where the cursor of the open scope tab is.
    pub open spec fn here(self) -> Option<(usize, usize)> {
        match self.scope_at(self.tab) {
            Some(screen) => Some((self.tab, screen.list().cursor.index)),
            None => None,
        }
    }

    /// The owner of a pod the cursor has rested on.
    #[verifier::opaque]
    pub open spec fn owner_ticked(self, now: u64) -> (Self, Seq<ActionView>) {
        match self.here() {
            None => (AppView { rested: None, ..self }, Seq::empty()),
            Some(here) => match self.rested {
                Some((tab, index, since)) if (tab, index) == here => if elapsed(since, now) >= REST {
                    match self.parts() {
                        Some(parts) => {
                            let (screen, request) = parts.screen.owner_asked(
                                self.tab,
                                parts.data,
                            );
                            (
                                self.with_scope(self.tab, screen),
                                match request {
                                    Some(request) => seq![ActionView::Kube(request)],
                                    None => Seq::empty(),
                                },
                            )
                        },
                        None => (self, Seq::empty()),
                    }
                } else {
                    (self, Seq::empty())
                },
                _ => (
                    AppView { rested: Some((here.0, here.1, now)), ..self },
                    Seq::empty(),
                ),
            },
        }
    }

    /// One turn of the clock.
    #[verifier::opaque]
    pub open spec fn ticked(self, now: u64, today: Timestamp) -> (Self, Seq<ActionView>) {
        let (first, asked) = self.screen_ticked(now, today);
        let (second, followed) = first.follow_ticked();
        let (third, owned) = second.owner_ticked(now);
        (third, asked + followed + owned)
    }

    /// Whether the cursor has landed somewhere just now.
    pub open spec fn is_resting(self, now: u64) -> bool {
        self.rested matches Some((_, _, since)) && elapsed(since, now) < REST
    }

    /// How many milliseconds the run loop may sleep.
    #[verifier::opaque]
    pub open spec fn sleep(self, settled: u64, now: u64) -> u64 {
        if self.store.azure.refreshing || self.store.is_reading() {
            100
        } else if self.tab < self.screens.len() && self.screens[self.tab as int].is_ticking() {
            1_000
        } else if self.is_resting(now) || exists|i: int|
            0 <= i < self.screens.len() && (#[trigger] self.screens[i]).is_resting(now) {
            REST
        } else {
            settled
        }
    }

    /// Once the open table's rows have been worked out again.
    pub open spec fn rows_settled(self, today: Timestamp) -> Self {
        if self.tab < self.screens.len() {
            self.with_screen(
                self.screens[self.tab as int].refiltered(
                    self.data_at(self.tab),
                    self.store.azure,
                    today,
                ),
            )
        } else {
            self
        }
    }

    // ── The session ────────────────────────────────────────────────────

    /// The first so many tabs' layouts.
    pub open spec fn saved_to(self, count: int) -> SessionView
        decreases count,
    {
        if count <= 0 {
            SessionView {
                tab: if self.tab < self.tabs.len() {
                    Some(self.tabs[self.tab as int].key_text())
                } else {
                    None
                },
                tabs: Seq::empty(),
            }
        } else {
            let before = self.saved_to(count - 1);
            let key = self.tabs[count - 1].key_text();
            before.with_tab(
                key,
                self.screens[count - 1].saved(
                    match before.held(key) {
                        Some(held) => held,
                        None => SessionTabView::empty(),
                    },
                ),
            )
        }
    }

    /// The layout as it stands, for the file.
    pub open spec fn saved(self) -> SessionView {
        self.saved_to(
            if self.tabs.len() < self.screens.len() {
                self.tabs.len() as int
            } else {
                self.screens.len() as int
            },
        )
    }

    /// The screens with their layouts put back.
    pub open spec fn screens_restored(self, session: SessionView) -> Seq<ScreenView> {
        Seq::new(
            self.screens.len(),
            |i: int|
                if i < self.tabs.len() {
                    match session.held(self.tabs[i].key_text()) {
                        Some(held) => self.screens[i].restored(held),
                        None => self.screens[i],
                    }
                } else {
                    self.screens[i]
                },
        )
    }

    /// The tab a session opens, or the one that is open where it names none.
    pub open spec fn tab_restored(self, session: SessionView) -> usize {
        match session.tab {
            Some(key) => if tab_position(self.tabs, key) < self.tabs.len() {
                tab_position(self.tabs, key) as usize
            } else {
                self.tab
            },
            None => self.tab,
        }
    }

    pub open spec fn restored(self, session: SessionView) -> Self {
        AppView {
            tab: self.tab_restored(session),
            screens: self.screens_restored(session),
            ..self
        }
    }

    // ── The status bar ─────────────────────────────────────────────────

    /// What the status bar says on the left when nothing has just happened.
    pub open spec fn hint(self) -> Seq<char> {
        if self.tab < self.screens.len() {
            self.screens[self.tab as int].hint(self.shell.focus)
        } else {
            Seq::empty()
        }
    }

    /// What the status bar says of a scope on the right.
    #[verifier::opaque]
    pub open spec fn scope_said(
        self,
        scope: Seq<char>,
        data: ScopeData,
        kind: Kind,
        spinner: Seq<char>,
        today: Timestamp,
    ) -> (Seq<char>, Tone) {
        let (count, error, read_at, reads) = data.summary(kind);
        let noun = kind.noun_text();
        if data.reading && reads == 0 && count == 0 {
            (spinner + " reading "@ + scope + " "@ + noun + "…"@, Tone::Busy)
        } else {
            match error {
                Some(message) => ("! "@ + scope + " "@ + noun + ": "@ + message@, Tone::Wrong),
                None => (
                    (if data.reading {
                        spinner + " "@
                    } else {
                        "● "@
                    }) + decimal(count as nat) + " "@ + noun + " · "@ + age_said(read_at, today),
                    Tone::Quiet,
                ),
            }
        }
    }

    /// What the status bar says of the Azure half on the right.
    #[verifier::opaque]
    pub open spec fn azure_said(self, registries: bool, spinner: Seq<char>, today: Timestamp) -> (
        Seq<char>,
        Tone,
    ) {
        let store = self.store.azure;
        if store.refreshing {
            (
                spinner + " "@ + match store.progress {
                    Some(said) => said@,
                    None => "reading…"@,
                },
                Tone::Busy,
            )
        } else if store.problems@.len() > 0 {
            ("! "@ + store.problems@[0].line(), Tone::Wrong)
        } else {
            (
                "● "@ + (if registries {
                    decimal(store.inventory.registries@.len()) + " registries · "@ + decimal(
                        store.repositories@.len(),
                    ) + " repositories"@
                } else {
                    decimal(store.inventory.vaults@.len()) + " vaults · "@ + decimal(
                        store.secrets@.len(),
                    ) + " secrets"@
                }) + " · "@ + age_said(store.read_at, today),
                Tone::Quiet,
            )
        }
    }

    /// What the status bar says on the right.
    pub open spec fn state_said(self, spinner: Seq<char>, today: Timestamp) -> (Seq<char>, Tone) {
        if self.tab >= self.tabs.len() {
            (Seq::empty(), Tone::Plain)
        } else {
            match self.tabs[self.tab as int] {
                Tab::Scope(tab) => match (self.data_at(self.tab), self.kind()) {
                    (Some(data), Some(kind)) => self.scope_said(
                        tab.scope@.described(),
                        data,
                        kind,
                        spinner,
                        today,
                    ),
                    _ => (Seq::empty(), Tone::Plain),
                },
                Tab::Secrets => self.azure_said(false, spinner, today),
                Tab::Registries => self.azure_said(true, spinner, today),
            }
        }
    }
}

/// What one kind's read of a scope was refused with, where it was.
pub open spec fn refusal_line(scope: Seq<char>, data: ScopeData, kind: Kind) -> Seq<Seq<char>> {
    match data.summary(kind).1 {
        Some(message) => seq![scope + " "@ + kind.noun_text() + ": "@ + message@],
        None => Seq::empty(),
    }
}

/// What the Azure half's problems say.
pub open spec fn azure_problems(problems: Seq<Problem>) -> Seq<Seq<char>> {
    problems.map_values(|problem: Problem| problem.line())
}

impl AppView {
    /// What the reads of the first so many tabs were refused with.
    pub open spec fn scope_problems(self, count: nat) -> Seq<Seq<char>>
        decreases count,
    {
        if count == 0 || count > self.tabs.len() {
            Seq::empty()
        } else {
            let before = self.scope_problems((count - 1) as nat);
            match (self.tabs[count - 1], self.data_at((count - 1) as usize)) {
                (Tab::Scope(tab), Some(data)) => {
                    let name = tab.scope@.described();
                    before + refusal_line(name, data, Kind::Pods) + refusal_line(
                        name,
                        data,
                        Kind::Events,
                    ) + refusal_line(name, data, Kind::ConfigMaps) + refusal_line(
                        name,
                        data,
                        Kind::Secrets,
                    )
                },
                _ => before,
            }
        }
    }

    /// Everything that is wrong, a line each.
    pub open spec fn problems(self) -> Seq<Seq<char>> {
        self.scope_problems(self.tabs.len()) + azure_problems(self.store.azure.problems@)
    }
}

/// How what the status bar says is meant.
#[derive(Clone, Copy, Debug, PartialEq, Eq, Structural)]
pub enum Tone {
    Plain,
    /// Something is being read.
    Busy,
    Wrong,
    Quiet,
}

/// "just now", "12s ago", or "never read".
pub open spec fn age_said(read_at: Option<Timestamp>, today: Timestamp) -> Seq<char> {
    match read_at {
        None => "never read"@,
        Some(read_at) => {
            let age = age_text(seconds_between(today, read_at));
            if age == "now"@ {
                "just now"@
            } else {
                age + " ago"@
            }
        },
    }
}

} // verus!
