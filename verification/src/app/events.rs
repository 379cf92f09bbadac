//! What the pointer, the workers and the clock make of the application.

use vstd::prelude::*;

use super::pane::log_said;
use super::program::{lemma_one_screen, scope_data, scope_in, scope_tab, App};
use super::screen::{ActionView, AppAction, Target};
use super::screens::ScreenView;
use super::secrets::{millis_since, pair_said, REST};
use super::shell::{Focus, Menu};
use super::state::{registries_at, secrets_at, AppView};
use crate::columns::ColumnId;
use crate::filter::env_position;
use crate::input::{MouseButton, MouseEvent, MouseEventKind};
use crate::kube::{self, said, same_text, Kind, LogFollow};
use crate::store::{kube_touched, touched, Applied, Store};
use crate::timestamp::Timestamp;
use crate::worker;

verus! {

proof fn lemma_secrets_at(screens: Seq<ScreenView>, i: int)
    requires
        0 <= i <= screens.len(),
        forall|k: int| 0 <= k < i ==> !((#[trigger] screens[k]) is Secrets),
        i < screens.len() ==> screens[i] is Secrets,
    ensures
        secrets_at(screens) == i,
    decreases i,
{
    if i > 0 {
        assert(!(screens[0] is Secrets));
        assert forall|k: int| 0 <= k < i - 1 implies !((#[trigger] screens.skip(1)[k])
            is Secrets) by {
            assert(screens.skip(1)[k] == screens[k + 1]);
        }
        lemma_secrets_at(screens.skip(1), i - 1);
    }
}

proof fn lemma_registries_at(screens: Seq<ScreenView>, i: int)
    requires
        0 <= i <= screens.len(),
        forall|k: int| 0 <= k < i ==> !((#[trigger] screens[k]) is Registries),
        i < screens.len() ==> screens[i] is Registries,
    ensures
        registries_at(screens) == i,
    decreases i,
{
    if i > 0 {
        assert(!(screens[0] is Registries));
        assert forall|k: int| 0 <= k < i - 1 implies !((#[trigger] screens.skip(1)[k])
            is Registries) by {
            assert(screens.skip(1)[k] == screens[k + 1]);
        }
        lemma_registries_at(screens.skip(1), i - 1);
    }
}

/// News for a pane or a modal leaves the store as it was.
proof fn lemma_screen_told(app: AppView, event: kube::Event)
    ensures
        app.screen_told(event).0.store == app.store,
{
    reveal(AppView::screen_told);
}

/// A read that has landed leaves the store as it is.
proof fn lemma_read_landed(app: AppView, was: Store, at: usize, kind: Kind)
    ensures
        app.rows_read(was, at, kind).store == app.store,
        app.read_failed(was, at, kind).store == app.store,
{
    reveal(AppView::rows_read);
    reveal(AppView::read_failed);
}

/// A screen that is rebuilt leaves the store as it is.
proof fn lemma_azure_reread(app: AppView, was: crate::store::AzureStore, today: Timestamp)
    ensures
        app.secrets_reread(was, today).store == app.store,
        app.repositories_reread(was, today).store == app.store,
        app.detail_reread().store == app.store,
        forall|
            vault: Seq<char>,
            name: Seq<char>,
            result: Result<(Seq<char>, Seq<char>), Seq<char>>,
            now: u64,
        |
            (#[trigger] app.value_come(vault, name, result, now)).0.store == app.store,
{
    reveal(AppView::secrets_reread);
    reveal(AppView::repositories_reread);
    reveal(AppView::detail_reread);
    reveal(AppView::value_come);
}

impl App {
    // ── The pointer ────────────────────────────────────────────────────

    /// The open modal takes the pointer: its yes answers it, its body does
    /// nothing, anywhere else closes it. The wheel is ignored.
    fn click_in_modal(&mut self, kind: MouseEventKind, target: Option<Target>) -> (r: AppAction)
        ensures
            (final(self)@, r@) == old(self)@.modal_clicked(kind, target),
    {
        proof {
            reveal(AppView::modal_clicked);
        }
        let tab: usize = self.tab;
        if kind != MouseEventKind::Down(MouseButton::Left) || target == Some(Target::Modal) {
            return AppAction::Nothing;
        }
        match scope_in(&mut self.screens, tab) {
            None => AppAction::Nothing,
            Some(screen) => if target == Some(Target::Confirm) {
                super::screen::kube_action(screen.confirm(&mut self.shell, tab))
            } else {
                screen.dismiss();
                AppAction::Nothing
            },
        }
    }

    /// The open menu takes the click: one of its lines chooses, anywhere else
    /// closes it and does nothing more.
    fn click_in_menu(&mut self, menu: Menu, target: Option<Target>) -> (r: AppAction)
        ensures
            (final(self)@, r@) == old(self)@.menu_clicked(menu, target),
    {
        proof {
            reveal(AppView::menu_clicked);
        }
        match (menu, target) {
            (Menu::Env, Some(Target::EnvOption(env))) => {
                self.choose_env(env);
                AppAction::Nothing
            },
            (Menu::Kind, Some(Target::KindOption(kind))) => {
                self.shell.set_menu(None);
                self.set_kind(kind)
            },
            _ => {
                self.shell.set_menu(None);
                AppAction::Nothing
            },
        }
    }

    /// A click on something drawn.
    fn click(&mut self, target: Target) -> (r: AppAction)
        ensures
            (final(self)@, r@) == old(self)@.clicked(target),
    {
        proof {
            reveal(AppView::clicked);
        }
        let tab: usize = self.tab;
        match target {
            Target::Tab(index) => self.switch_to(index),
            Target::Header(ColumnId::Env) => {
                // The menu opens on the line the query is already at.
                let at: usize = env_position(self.current_env());
                self.shell.set_focus(Focus::Table);
                self.shell.set_menu(Some((Menu::Env, at)));
                AppAction::Nothing
            },
            Target::KindPill => {
                let menu = match self.kind() {
                    Some(kind) => Some((Menu::Kind, kind.position())),
                    None => None,
                };
                self.shell.set_menu(menu);
                AppAction::Nothing
            },
            Target::KindOption(kind) => self.set_kind(kind),
            Target::Button(button) => self.button(button),
            Target::Help => {
                let open = !self.shell.help_open;
                self.shell.set_help(open);
                AppAction::Nothing
            },
            Target::SearchField => {
                self.shell.set_focus(Focus::Search);
                AppAction::Nothing
            },
            Target::ClearSearch => {
                self.clear_query();
                AppAction::Nothing
            },
            Target::Details | Target::TextPane => {
                self.shell.set_focus(Focus::Details);
                AppAction::Nothing
            },
            _ => {
                self.shell.set_focus(Focus::Table);
                if tab < self.screens.len() {
                    proof {
                        lemma_one_screen(self.screens@, tab as int);
                    }
                    self.screens[tab].handle_click(&mut self.shell, target)
                } else {
                    AppAction::Nothing
                }
            },
        }
    }

    fn wheel(&mut self, target: Option<Target>, delta: i32)
        ensures
            final(self)@ == old(self)@.wheeled(target, delta as int),
    {
        let tab: usize = self.tab;
        if tab < self.screens.len() {
            proof {
                lemma_one_screen(self.screens@, tab as int);
            }
            self.screens[tab].handle_wheel(target, delta);
        }
    }

    /// A click, resolved against what was drawn last frame. A click lands
    /// focus where it lands: on a row, the table; on the pane, the pane.
    pub fn handle_mouse(&mut self, event: MouseEvent) -> (r: AppAction)
        ensures
            (final(self)@, r@) == old(self)@.pointed(event),
    {
        proof {
            reveal(AppView::pointed);
        }
        let target = self.shell.hit(event.column, event.row);
        if self.asks() {
            return self.click_in_modal(event.kind, target);
        }
        match event.kind {
            MouseEventKind::Down(_) => match self.shell.menu {
                Some((menu, _)) => self.click_in_menu(menu, target),
                None => match target {
                    Some(target) => self.click(target),
                    None => AppAction::Nothing,
                },
            },
            MouseEventKind::ScrollDown => {
                self.wheel(target, 3);
                AppAction::Nothing
            },
            MouseEventKind::ScrollUp => {
                self.wheel(target, -3);
                AppAction::Nothing
            },
            MouseEventKind::Other => AppAction::Nothing,
        }
    }

    // ── The Azure worker ───────────────────────────────────────────────

    fn secrets_place(&self) -> (r: usize)
        ensures
            r == secrets_at(self@.screens),
            r <= self.screens@.len(),
            r < self.screens@.len() ==> self@.screens[r as int] is Secrets,
    {
        let mut i: usize = 0;
        while i < self.screens.len() && self.screens[i].secrets().is_none()
            invariant
                i <= self.screens@.len(),
                forall|k: int| 0 <= k < i ==> !((#[trigger] self@.screens[k]) is Secrets),
            decreases self.screens@.len() - i,
        {
            i = i + 1;
        }
        proof {
            lemma_secrets_at(self@.screens, i as int);
        }
        i
    }

    fn registries_place(&self) -> (r: usize)
        ensures
            r == registries_at(self@.screens),
            r <= self.screens@.len(),
            r < self.screens@.len() ==> self@.screens[r as int] is Registries,
    {
        let mut i: usize = 0;
        while i < self.screens.len() && self.screens[i].registries().is_none()
            invariant
                i <= self.screens@.len(),
                forall|k: int| 0 <= k < i ==> !((#[trigger] self@.screens[k]) is Registries),
            decreases self.screens@.len() - i,
        {
            i = i + 1;
        }
        proof {
            lemma_registries_at(self@.screens, i as int);
        }
        i
    }

    /// What the Secrets cursor is on.
    fn secrets_identity(&self) -> (r: Option<(String, String)>)
        ensures
            secrets_at(self@.screens) < self@.screens.len() ==> pair_said(r)
                == self@.screens[secrets_at(self@.screens)]->Secrets_0.identity(self.store.azure),
    {
        let at: usize = self.secrets_place();
        if at < self.screens.len() {
            if let Some(screen) = self.screens[at].secrets() {
                return screen.cursor_identity(&self.store.azure);
            }
        }
        None
    }

    /// What the Registries cursor is on.
    fn registries_identity(&self) -> (r: Option<(String, String)>)
        ensures
            registries_at(self@.screens) < self@.screens.len() ==> pair_said(r)
                == self@.screens[registries_at(self@.screens)]->Registries_0.identity(
                self.store.azure,
            ),
    {
        let at: usize = self.registries_place();
        if at < self.screens.len() {
            if let Some(screen) = self.screens[at].registries() {
                return screen.cursor_identity(&self.store.azure);
            }
        }
        None
    }

    fn reread_secrets(
        &mut self,
        was: Option<(String, String)>,
        today: Timestamp,
        Ghost(before): Ghost<crate::store::AzureStore>,
    )
        requires
            secrets_at(old(self)@.screens) < old(self)@.screens.len() ==> pair_said(was)
                == old(self)@.screens[secrets_at(old(self)@.screens)]->Secrets_0.identity(before),
        ensures
            final(self)@ == old(self)@.secrets_reread(before, today),
    {
        proof {
            reveal(AppView::secrets_reread);
        }
        let at: usize = self.secrets_place();
        if at < self.screens.len() {
            proof {
                lemma_one_screen(self.screens@, at as int);
            }
            if let Some(screen) = self.screens[at].secrets_mut() {
                screen.invalidate();
                screen.keep_cursor(&self.store.azure, was, today);
            }
        }
    }

    fn reread_repositories(
        &mut self,
        was: Option<(String, String)>,
        today: Timestamp,
        Ghost(before): Ghost<crate::store::AzureStore>,
    )
        requires
            registries_at(old(self)@.screens) < old(self)@.screens.len() ==> pair_said(was)
                == old(self)@.screens[registries_at(old(self)@.screens)]->Registries_0.identity(
                before,
            ),
        ensures
            final(self)@ == old(self)@.repositories_reread(before, today),
    {
        proof {
            reveal(AppView::repositories_reread);
        }
        let at: usize = self.registries_place();
        if at < self.screens.len() {
            proof {
                lemma_one_screen(self.screens@, at as int);
            }
            if let Some(screen) = self.screens[at].registries_mut() {
                screen.invalidate();
                screen.keep_cursor(&self.store.azure, was, today);
            }
        }
    }

    /// A repository's tags re-read with the same count would otherwise keep
    /// the old order under the new list.
    fn reread_detail(&mut self)
        ensures
            final(self)@ == old(self)@.detail_reread(),
    {
        proof {
            reveal(AppView::detail_reread);
        }
        let at: usize = self.registries_place();
        if at < self.screens.len() {
            proof {
                lemma_one_screen(self.screens@, at as int);
            }
            if let Some(screen) = self.screens[at].registries_mut() {
                screen.invalidate();
            }
        }
    }

    fn hand_value(
        &mut self,
        vault: &str,
        name: &str,
        result: Result<(crate::azure::Secret, String), String>,
        now: u64,
    ) -> (r: AppAction)
        ensures
            (final(self)@, r@) == old(self)@.value_come(
                vault@,
                name@,
                super::secrets::answer_view(result),
                now,
            ),
    {
        proof {
            reveal(AppView::value_come);
        }
        let at: usize = self.secrets_place();
        if at < self.screens.len() {
            proof {
                lemma_one_screen(self.screens@, at as int);
            }
            if let Some(screen) = self.screens[at].secrets_mut() {
                return screen.on_value(
                    &mut self.shell,
                    &self.store.azure,
                    vault,
                    name,
                    result,
                    now,
                );
            }
        }
        AppAction::Nothing
    }

    /// An Azure worker event, and whatever it asks the run loop to do next.
    ///
    /// A value is the one that does not stay here: it goes to the Secrets
    /// screen that asked for it, which either shows it or copies it and keeps
    /// nothing either way.
    pub fn apply_azure(&mut self, event: worker::Event, now: u64, today: Timestamp) -> (r:
        AppAction)
        ensures
            old(self).store.azure.after(
                event,
                today,
                final(self).store.azure,
                touched(event),
            ),
            (final(self)@, r@) == old(self)@.azure_told(
                event,
                final(self).store.azure,
                now,
                today,
            ),
    {
        proof {
            reveal(AppView::azure_told);
        }
        let ghost was = self.store.azure;
        let secrets_was = self.secrets_identity();
        let registries_was = self.registries_identity();
        let applied = self.store.azure.apply(event, today);
        proof {
            lemma_azure_reread(self@, was, today);
        }
        match applied {
            Applied::Secrets => self.reread_secrets(secrets_was, today, Ghost(was)),
            Applied::Repositories => self.reread_repositories(registries_was, today, Ghost(was)),
            Applied::Value { vault, name, result } => {
                return self.hand_value(vault.as_str(), name.as_str(), result, now);
            },
            Applied::Detail => self.reread_detail(),
            Applied::Nothing | Applied::Status => {},
        }
        AppAction::Nothing
    }

    // ── The clusters' workers ──────────────────────────────────────────

    /// What one kind's cursor is on, by identity, in one of the scopes.
    fn scope_identity(&self, at: usize, kind: Kind) -> (r: Option<String>)
        ensures
            self@.scope_at(at) matches Some(screen) ==> (at < self.store.scopes@.len() ==> said(r)
                == screen.lists.identity(kind, self.store.scopes@[at as int])),
    {
        if at < self.screens.len() {
            if let (Some(screen), Some(data)) = (
                self.screens[at].scope(),
                scope_data(&self.store, at),
            ) {
                return screen.cursor_identity(kind, data);
            }
        }
        None
    }

    /// What one kind's last failure in one of the scopes said.
    fn scope_error(&self, at: usize, kind: Kind) -> (r: Option<String>)
        ensures
            at < self.store.scopes@.len() ==> said(r) == said(
                self.store.scopes@[at as int].summary(kind).1,
            ),
    {
        match scope_data(&self.store, at) {
            Some(data) => match data.listing(kind).error {
                Some(message) => Some(message.clone()),
                None => None,
            },
            None => None,
        }
    }

    fn reread_scope(&mut self, at: usize, kind: Kind, was: Option<String>, Ghost(before): Ghost<Store>)
        requires
            old(self).store.scopes@.len() == before.scopes@.len(),
            old(self)@.scope_at(at) matches Some(screen) ==> (at < before.scopes@.len() ==> said(was)
                == screen.lists.identity(kind, before.scopes@[at as int])),
        ensures
            final(self)@ == old(self)@.rows_read(before, at, kind),
    {
        proof {
            reveal(AppView::rows_read);
        }
        if at >= self.store.scopes.len() {
            return;
        }
        if kind == Kind::Pods {
            self.cache_dirty = true;
        }
        if let Some(screen) = scope_in(&mut self.screens, at) {
            screen.rows_changed(kind, &self.store.scopes[at], was);
        }
    }

    fn say_failure(&mut self, at: usize, kind: Kind, was: Option<String>, Ghost(before): Ghost<Store>)
        requires
            old(self).store.scopes@.len() == before.scopes@.len(),
            at < before.scopes@.len() ==> said(was) == said(
                before.scopes@[at as int].summary(kind).1,
            ),
        ensures
            final(self)@ == old(self)@.read_failed(before, at, kind),
    {
        proof {
            reveal(AppView::read_failed);
        }
        if at >= self.store.scopes.len() || at != self.tab || self.kind() != Some(kind) {
            return;
        }
        let now = self.scope_error(at, kind);
        let again = same_text(&was, &now);
        if let (Some(tab), Some(message)) = (scope_tab(&self.tabs, at), now) {
            if !again {
                let mut text = tab.scope.describe();
                text.push_str(" ");
                text.push_str(kind.noun());
                text.push_str(": ");
                text.push_str(message.as_str());
                self.shell.set_error(text.as_str());
            }
        }
    }

    /// News for the pane or the modal goes to the tab that asked and touches
    /// no rows.
    #[verifier::rlimit(40)]
    fn tell_screen(&mut self, event: kube::Event) -> (r: AppAction)
        ensures
            (final(self)@, r@) == old(self)@.screen_told(event),
    {
        proof {
            reveal(AppView::screen_told);
        }
        match event {
            kube::Event::LogLines { target, lines, finished } => {
                if let Some(screen) = scope_in(&mut self.screens, target.scope) {
                    screen.append_log(&target, lines, finished);
                }
                AppAction::Nothing
            },
            kube::Event::Text { scope, kind, object, text } => {
                if let Some(screen) = scope_in(&mut self.screens, scope) {
                    screen.set_text(kind, object, text);
                }
                AppAction::Nothing
            },
            kube::Event::Deleted { scope, key, error } => {
                if scope < self.screens.len() {
                    if let (Some(screen), Some(data)) = (
                        self.screens[scope].scope(),
                        scope_data(&self.store, scope),
                    ) {
                        screen.deleted(&mut self.shell, data, &key, error);
                    }
                }
                AppAction::Nothing
            },
            kube::Event::Acted { scope, verb, object, error } => {
                if scope < self.screens.len() {
                    if let Some(screen) = self.screens[scope].scope() {
                        screen.acted(&mut self.shell, verb.as_str(), &object, error);
                    }
                }
                AppAction::Nothing
            },
            kube::Event::Owner { scope, object, replicas } => {
                if let Some(screen) = scope_in(&mut self.screens, scope) {
                    screen.set_owner(object, replicas);
                }
                AppAction::Nothing
            },
            kube::Event::SecretValue { scope, object, key, copy, value } => {
                if let Some(data) = scope_data(&self.store, scope) {
                    if let Some(screen) = scope_in(&mut self.screens, scope) {
                        return screen.on_secret_value(
                            &mut self.shell,
                            data,
                            object,
                            key,
                            copy,
                            value,
                        );
                    }
                }
                AppAction::Nothing
            },
            _ => AppAction::Nothing,
        }
    }

    /// A kube worker event, and whatever it asks the run loop to do next. A
    /// read that landed re-sorts its list under a cursor that stays on its own
    /// row; a read that failed is said once in the status bar when it is the
    /// open tab's and the kind on screen; a secret's value goes to the one
    /// screen that asked, which shows it or copies it and keeps nothing either
    /// way.
    pub fn apply_kube(&mut self, event: kube::Event, today: Timestamp) -> (r: AppAction)
        ensures
            old(self).store.after(
                event,
                today,
                final(self).store,
                kube_touched(event, old(self).store.scopes@.len()),
            ),
            (final(self)@, r@) == old(self)@.kube_told(event, final(self).store),
    {
        proof {
            reveal(AppView::kube_told);
            lemma_screen_told(self@, event);
        }
        // What the tab held before the event: the cursor's row, by identity,
        // and the message the last failure left. Both are read against the
        // rows as they were, which a read is about to replace.
        let landing: Option<(usize, Kind, bool)> = match &event {
            kube::Event::Pods { scope, pods } => Some((*scope, Kind::Pods, pods.is_ok())),
            kube::Event::Events { scope, events } => Some((*scope, Kind::Events, events.is_ok())),
            kube::Event::ConfigMaps { scope, configmaps } => Some(
                (*scope, Kind::ConfigMaps, configmaps.is_ok()),
            ),
            kube::Event::Secrets { scope, secrets } => Some(
                (*scope, Kind::Secrets, secrets.is_ok()),
            ),
            kube::Event::Reading { .. } => {
                self.store.apply_kube(event, today);
                return AppAction::Nothing;
            },
            _ => return self.tell_screen(event),
        };
        if let Some((at, kind, ok)) = landing {
            let ghost before = self.store;
            let was_error = self.scope_error(at, kind);
            let was_cursor = self.scope_identity(at, kind);
            self.store.apply_kube(event, today);
            proof {
                lemma_read_landed(self@, before, at, kind);
            }
            if ok {
                self.reread_scope(at, kind, was_cursor, Ghost(before));
            } else {
                self.say_failure(at, kind, was_error, Ghost(before));
            }
        }
        AppAction::Nothing
    }

    // ── The clock ──────────────────────────────────────────────────────

    fn tick_screen(&mut self, now: u64, today: Timestamp, actions: &mut Vec<AppAction>)
        ensures
            final(self)@ == old(self)@.screen_ticked(now, today).0,
            action_views(final(actions)@) == action_views(old(actions)@) + old(self)@.screen_ticked(
                now,
                today,
            ).1,
    {
        proof {
            reveal(AppView::screen_ticked);
        }
        let ghost was = actions@;
        let tab: usize = self.tab;
        if tab < self.screens.len() {
            proof {
                lemma_one_screen(self.screens@, tab as int);
            }
            if let Some(request) = self.screens[tab].tick(&self.store.azure, now, today) {
                actions.push(AppAction::Azure(request));
                proof {
                    assert(action_views(actions@) =~= action_views(was) + seq![
                        ActionView::Azure(request@),
                    ]);
                }
            } else {
                proof {
                    assert(action_views(was) =~= action_views(was) + Seq::<ActionView>::empty());
                }
            }
        } else {
            proof {
                assert(action_views(was) =~= action_views(was) + Seq::<ActionView>::empty());
            }
        }
    }

    fn desired_log(&self) -> (r: Option<LogFollow>)
        ensures
            log_said(r) == self@.desired(),
    {
        let tab: usize = self.tab;
        if tab < self.screens.len() {
            if let (Some(screen), Some(data)) = (
                self.screens[tab].scope(),
                scope_data(&self.store, tab),
            ) {
                return screen.log_target(tab, data);
            }
        }
        None
    }

    /// The follow. An Azure tab follows nothing, so leaving a scope tab says so
    /// once.
    fn tick_follow(&mut self, actions: &mut Vec<AppAction>)
        ensures
            final(self)@ == old(self)@.follow_ticked().0,
            action_views(final(actions)@) == action_views(old(actions)@)
                + old(self)@.follow_ticked().1,
    {
        proof {
            reveal(AppView::follow_ticked);
        }
        let ghost was = actions@;
        let tab: usize = self.tab;
        let desired = self.desired_log();
        if same_log(&desired, &self.following) {
            proof {
                assert(action_views(was) =~= action_views(was) + Seq::<ActionView>::empty());
            }
            return;
        }
        self.following = copy_log(&desired);
        if let Some(screen) = scope_in(&mut self.screens, tab) {
            screen.begin_follow(copy_log(&desired));
        }
        let request = match desired {
            Some(target) => kube::Request::Follow(target),
            None => kube::Request::Unfollow,
        };
        let ghost asked = request@;
        actions.push(AppAction::Kube(request));
        proof {
            assert(action_views(actions@) =~= action_views(was) + seq![ActionView::Kube(asked)]);
        }
    }

    fn here(&self) -> (r: Option<(usize, usize)>)
        ensures
            r == self@.here(),
    {
        let tab: usize = self.tab;
        if tab < self.screens.len() {
            match self.screens[tab].scope() {
                Some(screen) => Some((tab, screen.list().cursor.index)),
                None => None,
            }
        } else {
            None
        }
    }

    /// The owner, once the cursor has rested on a pod.
    fn tick_owner(&mut self, now: u64, actions: &mut Vec<AppAction>)
        ensures
            final(self)@ == old(self)@.owner_ticked(now).0,
            action_views(final(actions)@) == action_views(old(actions)@) + old(self)@.owner_ticked(
                now,
            ).1,
    {
        proof {
            reveal(AppView::owner_ticked);
        }
        let ghost was = actions@;
        proof {
            assert(action_views(was) =~= action_views(was) + Seq::<ActionView>::empty());
        }
        let tab: usize = self.tab;
        match self.here() {
            None => {
                self.rested = None;
            },
            Some((at, index)) => {
                if let Some((held, row, since)) = self.rested {
                    if held == at && row == index {
                        if millis_since(since, now) >= REST {
                            if let (Some(_), Some(data)) = (
                                scope_tab(&self.tabs, tab),
                                scope_data(&self.store, tab),
                            ) {
                                if let Some(screen) = scope_in(&mut self.screens, tab) {
                                    if let Some(request) = screen.owner_request(tab, data) {
                                        let ghost asked = request@;
                                        actions.push(AppAction::Kube(request));
                                        proof {
                                            assert(action_views(actions@) =~= action_views(was)
                                                + seq![ActionView::Kube(asked)]);
                                        }
                                    }
                                }
                            }
                        }
                        return;
                    }
                }
                self.rested = Some((at, index, now));
            },
        }
    }

    /// One turn of the clock: what the open Azure screen has run out of or
    /// settled on; whatever the pane should be following now, if that has
    /// changed since the kube worker was last told; the owner of a pod the
    /// cursor has settled on; and a revealed value that has run out. Called
    /// after every frame, once the rows the cursor counts over are settled.
    pub fn tick(&mut self, now: u64, today: Timestamp) -> (r: Vec<AppAction>)
        ensures
            (final(self)@, action_views(r@)) == old(self)@.ticked(now, today),
    {
        proof {
            reveal(AppView::ticked);
        }
        let mut actions: Vec<AppAction> = Vec::new();
        let ghost first = self@.screen_ticked(now, today);
        let ghost second = first.0.follow_ticked();
        let ghost third = second.0.owner_ticked(now);
        self.tick_screen(now, today, &mut actions);
        self.tick_follow(&mut actions);
        self.tick_owner(now, &mut actions);
        proof {
            assert(action_views(actions@) =~= first.1 + second.1 + third.1);
        }
        actions
    }

    /// Whether the cursor has landed on a pod in the last [`REST`], so the
    /// loop comes back in time to ask about it.
    #[must_use]
    pub fn is_resting(&self, now: u64) -> (r: bool)
        ensures
            r == self@.is_resting(now),
    {
        match self.rested {
            Some((_, _, since)) => millis_since(since, now) < REST,
            None => false,
        }
    }

    fn any_resting(&self, now: u64) -> (r: bool)
        ensures
            r == exists|i: int|
                0 <= i < self@.screens.len() && (#[trigger] self@.screens[i]).is_resting(now),
    {
        let mut i: usize = 0;
        while i < self.screens.len()
            invariant
                i <= self.screens@.len(),
                forall|k: int| 0 <= k < i ==> !(#[trigger] self@.screens[k]).is_resting(now),
            decreases self.screens@.len() - i,
        {
            if self.screens[i].is_resting(now) {
                proof {
                    assert(self@.screens[i as int].is_resting(now));
                }
                return true;
            }
            i = i + 1;
        }
        false
    }

    /// How many milliseconds the run loop may sleep: a tenth of a second while
    /// a read is in flight, so its answer is painted the moment it lands; a
    /// second while a value is counting down; the rest interval while the
    /// cursor has just landed somewhere; and whatever the caller wanted
    /// otherwise.
    #[must_use]
    pub fn poll_for(&self, settled: u64, now: u64) -> (r: u64)
        ensures
            r == self@.sleep(settled, now),
    {
        proof {
            reveal(AppView::sleep);
        }
        if self.store.azure.refreshing || self.store.reading() {
            return 100;
        }
        if self.tab < self.screens.len() && self.screens[self.tab].is_ticking() {
            return 1_000;
        }
        if self.is_resting(now) || self.any_resting(now) {
            return REST;
        }
        settled
    }
}

/// What the run loop is asked, one thing after another.
pub open spec fn action_views(actions: Seq<AppAction>) -> Seq<ActionView> {
    actions.map_values(|action: AppAction| action@)
}

fn copy_log(target: &Option<LogFollow>) -> (r: Option<LogFollow>)
    ensures
        log_said(r) == log_said(*target),
{
    match target {
        Some(held) => Some(held.clone()),
        None => None,
    }
}

fn same_log(a: &Option<LogFollow>, b: &Option<LogFollow>) -> (r: bool)
    ensures
        r == (log_said(*a) == log_said(*b)),
{
    match (a, b) {
        (Some(a), Some(b)) => a.is(b),
        (None, None) => true,
        _ => false,
    }
}

} // verus!
