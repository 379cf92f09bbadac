//! The screens behind the tabs, each taken as what every screen can do.

use vstd::prelude::*;

use super::keys::Section;
use super::registries::{repositories_hint, tags_hint, RegistriesScreen, RegistriesView, TableView};
use super::scope::{scope_badge, ScopeScreen, ScopeView};
use super::screen::{ActionView, AppAction, Target};
use super::secrets::{
    elapsed, resting, search_hint, secrets_badge, secrets_hint, SecretsScreen, SecretsView, REST,
};
use super::list::ListView;
use super::shell::{Focus, Shell, ShellView};
use crate::input::{InputView, KeyEvent, TextInput};
use crate::kube::{said, Kind};
use crate::session::{
    apply_columns, columns_of, columns_restored, read_sort, saved_columns, saved_sort, sort_held,
    sort_of, SessionTab, SessionTabView,
};
use crate::store::{AzureStore, ScopeData};
use crate::timestamp::Timestamp;
use crate::worker;

verus! {

/// One tab's screen. A scope tab is boxed because it carries four lists and
/// the text pane; the two Azure screens are a fraction of that.
pub enum Screen {
    Scope(Box<ScopeScreen>),
    Secrets(SecretsScreen),
    Registries(RegistriesScreen),
}

pub enum ScreenView {
    Scope(ScopeView),
    Secrets(SecretsView),
    Registries(RegistriesView),
}

impl View for Screen {
    type V = ScreenView;

    open spec fn view(&self) -> ScreenView {
        match self {
            Screen::Scope(screen) => ScreenView::Scope((*screen)@),
            Screen::Secrets(screen) => ScreenView::Secrets(screen@),
            Screen::Registries(screen) => ScreenView::Registries(screen@),
        }
    }
}

impl ScreenView {
    /// What the search box of the table showing says.
    #[verifier::opaque]
    pub open spec fn input(self) -> InputView {
        match self {
            ScreenView::Scope(screen) => screen.list().input,
            ScreenView::Secrets(screen) => screen.input,
            ScreenView::Registries(screen) => screen.table().input,
        }
    }

    #[verifier::opaque]
    pub open spec fn with_input(self, input: InputView) -> Self {
        match self {
            ScreenView::Scope(screen) => ScreenView::Scope(
                screen.with_list(screen.kind, ListView { input, ..screen.list() }),
            ),
            ScreenView::Secrets(screen) => ScreenView::Secrets(SecretsView { input, ..screen }),
            ScreenView::Registries(screen) => ScreenView::Registries(
                screen.with_table(TableView { input, ..screen.table() }),
            ),
        }
    }

    pub open spec fn section(self) -> Section {
        match self {
            ScreenView::Scope(_) => Section::Aks,
            ScreenView::Secrets(_) => Section::Secrets,
            ScreenView::Registries(_) => Section::Registries,
        }
    }

    /// One key neither the shell nor the tab bar took. A scope tab that has
    /// no rows to count over takes none.
    #[verifier::opaque]
    pub open spec fn pressed(
        self,
        shell: ShellView,
        data: Option<ScopeData>,
        azure: AzureStore,
        key: KeyEvent,
    ) -> (Self, ShellView, ActionView) {
        match self {
            ScreenView::Scope(screen) => match data {
                Some(data) => (
                    ScreenView::Scope(screen.pressed(shell.focus, data, key)),
                    shell,
                    ActionView::Nothing,
                ),
                None => (self, shell, ActionView::Nothing),
            },
            ScreenView::Secrets(screen) => {
                let (then, shell, action) = screen.pressed(shell, azure, key);
                (ScreenView::Secrets(then), shell, action)
            },
            ScreenView::Registries(screen) => {
                let (then, shell, action) = screen.pressed(shell, azure, key);
                (ScreenView::Registries(then), shell, action)
            },
        }
    }

    #[verifier::opaque]
    pub open spec fn clicked(self, shell: ShellView, target: Target) -> (Self, ShellView) {
        match self {
            ScreenView::Scope(screen) => {
                let (then, shell) = screen.clicked(shell, target);
                (ScreenView::Scope(then), shell)
            },
            ScreenView::Secrets(screen) => (ScreenView::Secrets(screen.clicked(target)), shell),
            ScreenView::Registries(screen) => (
                ScreenView::Registries(screen.clicked(target)),
                shell,
            ),
        }
    }

    #[verifier::opaque]
    pub open spec fn wheeled(self, target: Option<Target>, delta: int) -> Self {
        match self {
            ScreenView::Scope(screen) => ScreenView::Scope(screen.wheeled(target, delta)),
            ScreenView::Secrets(screen) => ScreenView::Secrets(screen.wheeled(target, delta)),
            ScreenView::Registries(screen) => ScreenView::Registries(
                screen.wheeled(target, delta),
            ),
        }
    }

    /// Once everything an Azure screen holds that a refresh makes stale is
    /// gone, a value on screen first.
    #[verifier::opaque]
    pub open spec fn azure_left(self) -> Self {
        match self {
            ScreenView::Scope(_) => self,
            ScreenView::Secrets(screen) => ScreenView::Secrets(screen.looked_away()),
            ScreenView::Registries(screen) => ScreenView::Registries(screen.looked_away()),
        }
    }

    /// Once the rows showing have been worked out again.
    #[verifier::opaque]
    pub open spec fn refiltered(
        self,
        data: Option<ScopeData>,
        azure: AzureStore,
        today: Timestamp,
    ) -> Self {
        match self {
            ScreenView::Scope(screen) => match data {
                Some(data) => ScreenView::Scope(screen.refiltered(screen.kind, data)),
                None => self,
            },
            ScreenView::Secrets(screen) => ScreenView::Secrets(screen.refiltered(azure, today)),
            ScreenView::Registries(screen) => ScreenView::Registries(
                screen.refiltered(azure, today),
            ),
        }
    }

    /// One turn of the clock, and what the Azure worker is then asked.
    #[verifier::opaque]
    pub open spec fn ticked(self, azure: AzureStore, now: u64, today: Timestamp) -> (
        Self,
        Option<worker::RequestView>,
    ) {
        match self {
            ScreenView::Scope(screen) => (ScreenView::Scope(screen.aged(now)), None),
            ScreenView::Secrets(screen) => {
                let (then, request) = screen.refiltered(azure, today).ticked(azure, now);
                (ScreenView::Secrets(then), request)
            },
            ScreenView::Registries(screen) => {
                let (then, request) = screen.refiltered(azure, today).ticked(azure, now);
                (ScreenView::Registries(then), request)
            },
        }
    }

    /// Whether a value on the screen is counting down or being waited for.
    #[verifier::opaque]
    pub open spec fn is_ticking(self) -> bool {
        match self {
            ScreenView::Scope(screen) => screen.value.revealed is Some || screen.value.reading is Some,
            ScreenView::Secrets(screen) => screen.revealed is Some || screen.reading is Some,
            ScreenView::Registries(_) => false,
        }
    }

    /// Whether the cursor of an Azure screen has just landed somewhere.
    #[verifier::opaque]
    pub open spec fn is_resting(self, now: u64) -> bool {
        match self {
            ScreenView::Scope(_) => false,
            ScreenView::Secrets(screen) => resting(screen.rested, now),
            ScreenView::Registries(screen) => screen.rested matches Some((_, since)) && elapsed(
                since,
                now,
            ) < REST,
        }
    }

    /// What the tab's badge says.
    #[verifier::opaque]
    pub open spec fn badge(
        self,
        data: Option<ScopeData>,
        azure: AzureStore,
        today: Timestamp,
    ) -> Option<Seq<char>> {
        match self {
            ScreenView::Scope(_) => match data {
                Some(data) => scope_badge(data),
                None => None,
            },
            ScreenView::Secrets(_) => secrets_badge(azure, today),
            ScreenView::Registries(_) => None,
        }
    }

    #[verifier::opaque]
    pub open spec fn hint(self, focus: Focus) -> Seq<char> {
        match self {
            ScreenView::Scope(screen) => screen.hint(focus),
            ScreenView::Secrets(_) => if focus == Focus::Search {
                search_hint()
            } else {
                secrets_hint()
            },
            ScreenView::Registries(screen) => if focus == Focus::Search {
                search_hint()
            } else if screen.level is Repositories {
                repositories_hint()
            } else {
                tags_hint()
            },
        }
    }

    /// The screen's line of the session file, over what was there.
    pub open spec fn saved(self, held: SessionTabView) -> SessionTabView {
        match self {
            ScreenView::Scope(screen) => SessionTabView {
                kind: Some(screen.kind.noun_text()),
                sort: Some(saved_sort(screen.lists.pods.sort, screen.lists.pods.descending)),
                columns: saved_columns(screen.lists.pods.layout),
            },
            ScreenView::Secrets(screen) => SessionTabView {
                sort: Some(saved_sort(screen.sort, screen.descending)),
                columns: saved_columns(screen.layout),
                ..held
            },
            ScreenView::Registries(screen) => SessionTabView {
                sort: Some(
                    saved_sort(screen.repositories.sort, screen.repositories.descending),
                ),
                columns: saved_columns(screen.repositories.layout),
                ..held
            },
        }
    }

    /// The screen with its line of the session file put back.
    pub open spec fn restored(self, held: SessionTabView) -> Self {
        let sort = sort_held(held.sort);
        match self {
            ScreenView::Scope(screen) => {
                let screen = match held.kind {
                    Some(key) => match Kind::named(key) {
                        Some(kind) => screen.showing(kind),
                        None => screen,
                    },
                    None => screen,
                };
                let pods = screen.lists.pods;
                let columns = columns_restored(pods.layout, held.columns);
                ScreenView::Scope(
                    screen.with_list(
                        Kind::Pods,
                        match sort {
                            Some((sort, descending)) => ListView {
                                sort,
                                descending,
                                layout: columns,
                                ..pods
                            },
                            None => ListView { layout: columns, ..pods },
                        },
                    ),
                )
            },
            ScreenView::Secrets(screen) => {
                let columns = columns_restored(screen.layout, held.columns);
                ScreenView::Secrets(
                    match sort {
                        Some((sort, descending)) => SecretsView {
                            sort,
                            descending,
                            layout: columns,
                            ..screen
                        },
                        None => SecretsView { layout: columns, ..screen },
                    }.spoiled(),
                )
            },
            ScreenView::Registries(screen) => {
                let table = screen.repositories;
                let columns = columns_restored(table.layout, held.columns);
                ScreenView::Registries(
                    RegistriesView {
                        repositories: match sort {
                            Some((sort, descending)) => TableView {
                                sort,
                                descending,
                                layout: columns,
                                ..table
                            },
                            None => TableView { layout: columns, ..table },
                        },
                        ..screen
                    }.spoiled(),
                )
            },
        }
    }
}

impl Screen {
    #[must_use]
    pub fn scope(&self) -> (r: Option<&ScopeScreen>)
        ensures
            match self@ {
                ScreenView::Scope(screen) => r matches Some(held) && held@ == screen,
                _ => r is None,
            },
    {
        match self {
            Screen::Scope(screen) => Some(screen),
            _ => None,
        }
    }

    pub fn scope_mut(&mut self) -> (r: Option<&mut ScopeScreen>)
        ensures
            match old(self)@ {
                ScreenView::Scope(screen) => r matches Some(held) && held@ == screen
                    && final(self)@ == ScreenView::Scope(final(held)@),
                _ => r is None && *final(self) == *old(self),
            },
    {
        match self {
            Screen::Scope(screen) => Some(screen),
            _ => None,
        }
    }

    #[must_use]
    pub fn secrets(&self) -> (r: Option<&SecretsScreen>)
        ensures
            match self@ {
                ScreenView::Secrets(screen) => r matches Some(held) && held@ == screen,
                _ => r is None,
            },
    {
        match self {
            Screen::Secrets(screen) => Some(screen),
            _ => None,
        }
    }

    pub fn secrets_mut(&mut self) -> (r: Option<&mut SecretsScreen>)
        ensures
            match old(self)@ {
                ScreenView::Secrets(screen) => r matches Some(held) && held@ == screen
                    && final(self)@ == ScreenView::Secrets(final(held)@),
                _ => r is None && *final(self) == *old(self),
            },
    {
        match self {
            Screen::Secrets(screen) => Some(screen),
            _ => None,
        }
    }

    #[must_use]
    pub fn registries(&self) -> (r: Option<&RegistriesScreen>)
        ensures
            match self@ {
                ScreenView::Registries(screen) => r matches Some(held) && held@ == screen,
                _ => r is None,
            },
    {
        match self {
            Screen::Registries(screen) => Some(screen),
            _ => None,
        }
    }

    pub fn registries_mut(&mut self) -> (r: Option<&mut RegistriesScreen>)
        ensures
            match old(self)@ {
                ScreenView::Registries(screen) => r matches Some(held) && held@ == screen
                    && final(self)@ == ScreenView::Registries(final(held)@),
                _ => r is None && *final(self) == *old(self),
            },
    {
        match self {
            Screen::Registries(screen) => Some(screen),
            _ => None,
        }
    }

    /// The search box of the table this screen is showing.
    #[must_use]
    pub fn input(&self) -> (r: &TextInput)
        ensures
            r@ == self@.input(),
    {
        proof {
            reveal(ScreenView::input);
        }
        match self {
            Screen::Scope(screen) => &screen.list().input,
            Screen::Secrets(screen) => &screen.input,
            Screen::Registries(screen) => screen.input(),
        }
    }

    pub fn input_mut(&mut self) -> (r: &mut TextInput)
        ensures
            r@ == old(self)@.input(),
            final(self)@ == old(self)@.with_input(final(r)@),
    {
        proof {
            reveal(ScreenView::input);
            reveal(ScreenView::with_input);
        }
        match self {
            Screen::Scope(screen) => &mut screen.list_mut().input,
            Screen::Secrets(screen) => &mut screen.input,
            Screen::Registries(screen) => screen.input_mut(),
        }
    }

    /// Which of the help's sections this screen's keys are in.
    #[must_use]
    pub fn section(&self) -> (r: Section)
        ensures
            r == self@.section(),
    {
        match self {
            Screen::Scope(_) => Section::Aks,
            Screen::Secrets(_) => Section::Secrets,
            Screen::Registries(_) => Section::Registries,
        }
    }

    /// One key neither the shell nor the tab bar took.
    #[verifier::rlimit(40)]
    pub fn handle_key(
        &mut self,
        shell: &mut Shell,
        data: Option<&ScopeData>,
        azure: &AzureStore,
        key: KeyEvent,
    ) -> (r: AppAction)
        ensures
            (final(self)@, final(shell)@, r@) == old(self)@.pressed(
                old(shell)@,
                match data {
                    Some(data) => Some(*data),
                    None => None,
                },
                *azure,
                key,
            ),
    {
        proof {
            reveal(ScreenView::pressed);
        }
        match self {
            Screen::Scope(screen) => match data {
                Some(data) => screen.handle_key(shell, data, key),
                None => AppAction::Nothing,
            },
            Screen::Secrets(screen) => screen.handle_key(shell, azure, key),
            Screen::Registries(screen) => screen.handle_key(shell, azure, key),
        }
    }

    pub fn handle_click(&mut self, shell: &mut Shell, target: Target) -> (r: AppAction)
        ensures
            (final(self)@, final(shell)@) == old(self)@.clicked(old(shell)@, target),
            r is Nothing,
    {
        proof {
            reveal(ScreenView::clicked);
        }
        match self {
            Screen::Scope(screen) => screen.handle_click(shell, target),
            Screen::Secrets(screen) => screen.handle_click(target),
            Screen::Registries(screen) => screen.handle_click(target),
        }
    }

    pub fn handle_wheel(&mut self, target: Option<Target>, delta: i32)
        ensures
            final(self)@ == old(self)@.wheeled(target, delta as int),
    {
        proof {
            reveal(ScreenView::wheeled);
        }
        match self {
            Screen::Scope(screen) => screen.handle_wheel(target, delta),
            Screen::Secrets(screen) => screen.handle_wheel(target, delta),
            Screen::Registries(screen) => screen.handle_wheel(target, delta),
        }
    }

    /// Drops everything an Azure screen holds that a refresh makes stale, the
    /// revealed value first.
    pub fn leave_azure(&mut self)
        ensures
            final(self)@ == old(self)@.azure_left(),
    {
        proof {
            reveal(ScreenView::azure_left);
        }
        match self {
            Screen::Scope(_) => {},
            Screen::Secrets(screen) => screen.on_refresh(),
            Screen::Registries(screen) => screen.on_refresh(),
        }
    }

    /// Works out the rows showing again, before they are drawn.
    pub fn refilter(&mut self, data: Option<&ScopeData>, azure: &AzureStore, today: Timestamp)
        ensures
            final(self)@ == old(self)@.refiltered(
                match data {
                    Some(data) => Some(*data),
                    None => None,
                },
                *azure,
                today,
            ),
    {
        proof {
            reveal(ScreenView::refiltered);
        }
        match self {
            Screen::Scope(screen) => {
                if let Some(data) = data {
                    screen.refilter(data);
                }
            },
            Screen::Secrets(screen) => screen.refilter(azure, today),
            Screen::Registries(screen) => screen.refilter(azure, today),
        }
    }

    /// One turn of the clock: what the screen has run out of or settled on.
    pub fn tick(&mut self, azure: &AzureStore, now: u64, today: Timestamp) -> (r: Option<
        worker::Request,
    >)
        ensures
            (final(self)@, super::screen::azure_said(r)) == old(self)@.ticked(*azure, now, today),
    {
        proof {
            reveal(ScreenView::ticked);
        }
        match self {
            Screen::Scope(screen) => {
                screen.tick_reveal(now);
                None
            },
            Screen::Secrets(screen) => {
                screen.refilter(azure, today);
                screen.tick(azure, now)
            },
            Screen::Registries(screen) => {
                screen.refilter(azure, today);
                screen.tick(azure, now)
            },
        }
    }

    /// Whether a value on the screen is counting down or being waited for.
    #[must_use]
    pub fn is_ticking(&self) -> (r: bool)
        ensures
            r == self@.is_ticking(),
    {
        proof {
            reveal(ScreenView::is_ticking);
        }
        match self {
            Screen::Scope(screen) => screen.is_ticking(),
            Screen::Secrets(screen) => screen.is_ticking(),
            Screen::Registries(_) => false,
        }
    }

    /// Whether the cursor of an Azure screen has just landed somewhere.
    #[must_use]
    pub fn is_resting(&self, now: u64) -> (r: bool)
        ensures
            r == self@.is_resting(now),
    {
        proof {
            reveal(ScreenView::is_resting);
        }
        match self {
            Screen::Scope(_) => false,
            Screen::Secrets(screen) => screen.is_resting(now),
            Screen::Registries(screen) => screen.is_resting(now),
        }
    }

    /// What the tab's badge says.
    #[must_use]
    pub fn badge(&self, data: Option<&ScopeData>, azure: &AzureStore, today: Timestamp) -> (r:
        Option<String>)
        ensures
            said(r) == self@.badge(
                match data {
                    Some(data) => Some(*data),
                    None => None,
                },
                *azure,
                today,
            ),
    {
        proof {
            reveal(ScreenView::badge);
        }
        match self {
            Screen::Scope(_) => match data {
                Some(data) => ScopeScreen::badge(data),
                None => None,
            },
            Screen::Secrets(screen) => screen.badge(azure, today),
            Screen::Registries(screen) => screen.badge(azure),
        }
    }

    #[must_use]
    pub fn footer_hint(&self, shell: &Shell) -> (r: String)
        ensures
            r@ == self@.hint(shell@.focus),
    {
        proof {
            reveal(ScreenView::hint);
        }
        match self {
            Screen::Scope(screen) => screen.footer_hint(shell),
            Screen::Secrets(screen) => screen.footer_hint(shell),
            Screen::Registries(screen) => screen.footer_hint(shell),
        }
    }

    /// Puts the screen's layout on file.
    pub fn save(&self, held: &mut SessionTab)
        ensures
            final(held)@ == self@.saved(old(held)@),
    {
        match self {
            Screen::Scope(screen) => {
                held.kind = Some(screen.kind.session_key().to_owned());
                let pods = screen.list_of(Kind::Pods);
                held.sort = Some(sort_of(pods.sort, pods.descending));
                held.columns = columns_of(&pods.layout);
            },
            Screen::Secrets(screen) => {
                held.sort = Some(sort_of(screen.sort, screen.descending));
                held.columns = columns_of(&screen.layout);
            },
            Screen::Registries(screen) => {
                let table = &screen.repositories;
                held.sort = Some(sort_of(table.sort, table.descending));
                held.columns = columns_of(&table.layout);
            },
        }
    }

    /// Puts the screen's layout back. Anything this build does not recognise
    /// is left where it is.
    pub fn restore(&mut self, held: &SessionTab)
        ensures
            final(self)@ == old(self)@.restored(held@),
    {
        let sort = read_sort(&held.sort);
        match self {
            Screen::Scope(screen) => {
                if let Some(key) = &held.kind {
                    if let Some(kind) = Kind::from_session_key(key.as_str()) {
                        screen.set_kind(kind);
                    }
                }
                let pods = screen.list_of_mut(Kind::Pods);
                if let Some((column, way)) = sort {
                    pods.sort = column;
                    pods.descending = way;
                }
                apply_columns(&mut pods.layout, &held.columns);
            },
            Screen::Secrets(screen) => {
                if let Some((column, way)) = sort {
                    screen.sort = column;
                    screen.descending = way;
                }
                apply_columns(&mut screen.layout, &held.columns);
                screen.invalidate();
            },
            Screen::Registries(screen) => {
                if let Some((column, way)) = sort {
                    screen.repositories.sort = column;
                    screen.repositories.descending = way;
                }
                apply_columns(&mut screen.repositories.layout, &held.columns);
                screen.invalidate();
            },
        }
    }
}

} // verus!
