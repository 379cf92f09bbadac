//! One tab: four lists over one namespace of one cluster — pods, events,
//! configmaps, secrets — and the state that is this tab's alone: which kind
//! shows, each kind's cursor and search, the text pane under the details,
//! the question on top of the table, and the one secret value on screen.

use vstd::prelude::*;

use super::cursor::{least, most, ScrollState};
use super::list::{ListState, ListView, Row};
use super::lists::{object_said, Lists, ListsView};
use super::owners::{
    is_rollable, is_scalable, owner_object, owner_view, replicas_said, rollable, scalable, Owners,
    OwnersView,
};
use super::pane::{
    ended_of, log_said, stream_lines, tail_of, Brought, LogPane, LogPaneView, Pane, PaneText, PaneView,
    Texts, TextsView,
};
use super::screen::{request_said, ActionView, AppAction, Target};
use super::secrets::{clears_in, has_run_out, run_out, search_hint, seconds_left};
use super::shell::{Focus, Shell, ShellView};
use crate::azure::Secret;
use crate::columns::ColumnId;
use crate::config::ScopeTab;
use crate::input::{InputView, KeyCode, KeyEvent, TextInput};
use crate::kube::{
    said, text_said, ConfigMap, K8sEvent, Kind, LogFollow, LogView, ObjectRef, ObjectView, Pod,
    PodKey, PodKeyView, Replicas, Request, RequestView, SecretMeta, TextKind,
};
use crate::store::{troubled, ScopeData};
use crate::text::{
    decimal, equal, lines, lines_of, number, parse_whole, texts, trim, trimmed, whole,
};

verus! {

// ---------------------------------------------------------------------------
// Questions
// ---------------------------------------------------------------------------

/// What a confirmation is about to do.
#[derive(Debug, PartialEq, Eq)]
pub enum Verb {
    /// Delete the pod and let its owner put a new one up.
    Restart(PodKey),
    /// `kubectl rollout restart` of the owner.
    Rollout(ObjectRef),
}

pub enum VerbView {
    Restart(PodKeyView),
    Rollout(ObjectView),
}

impl View for Verb {
    type V = VerbView;

    open spec fn view(&self) -> VerbView {
        match self {
            Verb::Restart(key) => VerbView::Restart(key@),
            Verb::Rollout(object) => VerbView::Rollout(object@),
        }
    }
}

impl Verb {
    /// The modal's yes button.
    #[must_use]
    pub fn button(&self) -> (r: &'static str)
        ensures
            r@ == match self@ {
                VerbView::Restart(_) => "Restart"@,
                VerbView::Rollout(_) => "Rollout restart"@,
            },
    {
        match self {
            Verb::Restart(_) => "Restart",
            Verb::Rollout(_) => "Rollout restart",
        }
    }

    /// What the key line under the buttons says.
    #[must_use]
    pub fn hint(&self) -> (r: &'static str)
        ensures
            r@ == match self@ {
                VerbView::Restart(_) => "x again to restart it"@,
                VerbView::Rollout(_) => "X again to restart the rollout"@,
            },
    {
        match self {
            Verb::Restart(_) => "x again to restart it",
            Verb::Rollout(_) => "X again to restart the rollout",
        }
    }
}

/// A question on top of the table, taking every key until it is answered.
pub enum Modal {
    Confirm { title: String, body: Vec<String>, verb: Verb },
    Scale { object: ObjectRef, input: TextInput, current: Option<Replicas> },
}

pub enum ModalView {
    Confirm { title: Seq<char>, body: Seq<Seq<char>>, verb: VerbView },
    Scale { object: ObjectView, input: InputView, current: Option<Replicas> },
}

impl View for Modal {
    type V = ModalView;

    open spec fn view(&self) -> ModalView {
        match self {
            Modal::Confirm { title, body, verb } => ModalView::Confirm {
                title: title@,
                body: texts(body@),
                verb: verb@,
            },
            Modal::Scale { object, input, current } => ModalView::Scale {
                object: object@,
                input: input@,
                current: *current,
            },
        }
    }
}

pub open spec fn modal_view(modal: Option<Modal>) -> Option<ModalView> {
    match modal {
        Some(modal) => Some(modal@),
        None => None,
    }
}

// ---------------------------------------------------------------------------
// A value on screen
// ---------------------------------------------------------------------------

pub struct RevealedView {
    pub object: ObjectView,
    pub key: Seq<char>,
    pub value: Seq<char>,
    pub at: u64,
}

/// A secret's value, on screen, and when it got there.
///
/// **This is the one field of the tab that holds a [`Secret`].** It is
/// dropped when the cursor moves, on `r`, on a kind or tab switch, on `v`
/// again, and sixty seconds after it arrived.
pub struct Revealed {
    pub object: ObjectRef,
    pub key: String,
    pub value: Secret,
    pub at: u64,
}

impl View for Revealed {
    type V = RevealedView;

    open spec fn view(&self) -> RevealedView {
        RevealedView { object: self.object@, key: self.key@, value: self.value@, at: self.at }
    }
}

pub open spec fn revealed_view(revealed: Option<Revealed>) -> Option<RevealedView> {
    match revealed {
        Some(held) => Some(held@),
        None => None,
    }
}

impl Revealed {
    /// Whole seconds until it goes.
    #[must_use]
    pub fn clears_in(&self, now: u64) -> (r: u64)
        ensures
            r == seconds_left(self.at, now),
    {
        clears_in(self.at, now)
    }

    #[must_use]
    pub fn expired(&self, now: u64) -> (r: bool)
        ensures
            r == run_out(self.at, now),
    {
        has_run_out(self.at, now)
    }
}

/// The value on screen, the one on its way, and the last refusal.
pub struct ValueView {
    pub revealed: Option<RevealedView>,
    pub reading: Option<(ObjectView, Seq<char>, bool)>,
    pub refusal: Option<Seq<char>>,
}

impl ValueView {
    pub open spec fn empty() -> Self {
        ValueView { revealed: None, reading: None, refusal: None }
    }

    /// Once the cursor is elsewhere: the value goes, and the refusal.
    pub open spec fn left(self) -> Self {
        ValueView { revealed: None, refusal: None, ..self }
    }

    pub open spec fn hidden(self) -> Self {
        ValueView { revealed: None, ..self }
    }

    pub open spec fn awaiting(self, object: ObjectView, key: Seq<char>, copy: bool) -> Self {
        ValueView { refusal: None, reading: Some((object, key, copy)), ..self }
    }

    /// Whether the value on screen is that key's.
    pub open spec fn shows(self, object: ObjectView, key: Seq<char>) -> bool {
        self.revealed matches Some(held) && held.object == object && held.key == key
    }

    /// Whether that key's value is on its way.
    pub open spec fn awaits(self, object: ObjectView, key: Seq<char>) -> bool {
        self.reading matches Some((held, held_key, _)) && held == object && held_key == key
    }

    /// With a value that has run out taken off the screen.
    pub open spec fn aged(self, now: u64) -> Self {
        match self.revealed {
            Some(held) if run_out(held.at, now) => self.hidden(),
            _ => self,
        }
    }
}

/// Where one secret's value is: on screen, on its way, or refused.
pub struct ShownValue {
    /// The one place a value lives. See [`Revealed`].
    pub revealed: Option<Revealed>,
    /// A value request out and not yet back: the object, the key, and
    /// whether `y` sent it, so the answer goes to the clipboard rather than
    /// the screen.
    pub reading: Option<(ObjectRef, String, bool)>,
    /// What the cluster said when it would not hand one over. Cleared when
    /// the cursor moves.
    pub refusal: Option<String>,
}

pub open spec fn reading_said(reading: Option<(ObjectRef, String, bool)>) -> Option<
    (ObjectView, Seq<char>, bool),
> {
    match reading {
        Some((object, key, copy)) => Some((object@, key@, copy)),
        None => None,
    }
}

pub open spec fn value_said(value: Result<Secret, String>) -> Result<Seq<char>, Seq<char>> {
    match value {
        Ok(secret) => Ok(secret@),
        Err(message) => Err(message@),
    }
}

impl View for ShownValue {
    type V = ValueView;

    open spec fn view(&self) -> ValueView {
        ValueView {
            revealed: revealed_view(self.revealed),
            reading: reading_said(self.reading),
            refusal: said(self.refusal),
        }
    }
}

impl ShownValue {
    #[must_use]
    pub fn new() -> (r: Self)
        ensures
            r@ == ValueView::empty(),
    {
        ShownValue { revealed: None, reading: None, refusal: None }
    }

    fn leave(&mut self)
        ensures
            final(self)@ == old(self)@.left(),
    {
        self.revealed = None;
        self.refusal = None;
    }

    fn await_one(&mut self, object: ObjectRef, key: String, copy: bool)
        ensures
            final(self)@ == old(self)@.awaiting(object@, key@, copy),
    {
        self.refusal = None;
        self.reading = Some((object, key, copy));
    }

    fn shows(&self, object: &ObjectRef, key: &str) -> (r: bool)
        ensures
            r == self@.shows(object@, key@),
    {
        match &self.revealed {
            Some(held) => held.object.is(object) && equal(held.key.as_str(), key),
            None => false,
        }
    }

    fn awaits(&self, object: &ObjectRef, key: &str) -> (r: bool)
        ensures
            r == self@.awaits(object@, key@),
    {
        match &self.reading {
            Some((held, held_key, _)) => held.is(object) && equal(held_key.as_str(), key),
            None => false,
        }
    }

    fn age(&mut self, now: u64)
        ensures
            final(self)@ == old(self)@.aged(now),
    {
        let gone = match &self.revealed {
            Some(held) => held.expired(now),
            None => false,
        };
        if gone {
            self.revealed = None;
        }
    }
}

// ---------------------------------------------------------------------------
// What the tab holds
// ---------------------------------------------------------------------------

pub struct ScopeView {
    pub kind: Kind,
    pub lists: ListsView,
    pub details_scroll: ScrollState,
    pub key_cursor: usize,
    pub pane: PaneView,
    pub log: LogPaneView,
    pub texts: TextsView,
    pub modal: Option<ModalView>,
    pub owners: OwnersView,
    pub value: ValueView,
}

/// The value under a key, the first of that name.
pub open spec fn value_under(data: Seq<(String, String)>, key: Seq<char>) -> Option<Seq<char>>
    decreases data.len(),
{
    if data.len() == 0 {
        None
    } else if data[0].0@ == key {
        Some(data[0].1@)
    } else {
        value_under(data.skip(1), key)
    }
}

/// The line on the clipboard for a key's value.
pub open spec fn copied_key(value: Seq<char>, key: Seq<char>, name: Seq<char>) -> ActionView {
    ActionView::Copy { text: value, label: "Copied "@ + key + " of "@ + name }
}

/// What the pane shows for a text of that kind.
pub open spec fn pane_of(kind: TextKind) -> PaneText {
    match kind {
        TextKind::Describe => PaneText::Describe,
        TextKind::Yaml => PaneText::Yaml,
    }
}

/// The request that fetches a text.
pub open spec fn text_request(kind: TextKind, scope: usize, object: ObjectView) -> RequestView {
    match kind {
        TextKind::Describe => RequestView::Describe { scope, object },
        TextKind::Yaml => RequestView::Yaml { scope, object },
    }
}

impl ScopeView {
    /// A tab as it opens. A tab over every namespace says which each row is
    /// in.
    pub open spec fn opening(all_namespaces: bool) -> Self {
        ScopeView {
            kind: Kind::Pods,
            lists: ListsView::opening(all_namespaces),
            details_scroll: ScrollState { offset: 0, content: 0, viewport: 0 },
            key_cursor: 0,
            pane: PaneView::opening(),
            log: LogPaneView::opening(),
            texts: TextsView::empty(),
            modal: None,
            owners: OwnersView::empty(),
            value: ValueView::empty(),
        }
    }

    /// The list of the kind showing.
    pub open spec fn list(self) -> ListView {
        self.lists.of(self.kind)
    }

    pub open spec fn with_list(self, kind: Kind, list: ListView) -> Self {
        ScopeView { lists: self.lists.with(kind, list), ..self }
    }

    pub open spec fn default_sort(self) -> ColumnId {
        match self.kind {
            Kind::Events => ColumnId::Age,
            _ => ColumnId::Name,
        }
    }

    pub open spec fn pane_closed(self) -> Self {
        ScopeView { pane: self.pane.closed(), ..self }
    }

    /// Another kind: its list is where it was left; the pane, the details
    /// cursor and any value on screen are not carried across.
    pub open spec fn showing(self, kind: Kind) -> Self {
        if self.kind == kind {
            self
        } else {
            ScopeView {
                kind,
                pane: self.pane.closed(),
                details_scroll: self.details_scroll.scrolled_to(0),
                key_cursor: 0,
                value: self.value.left(),
                ..self
            }
        }
    }

    pub open spec fn refiltered(self, kind: Kind, data: ScopeData) -> Self {
        ScopeView { lists: self.lists.refiltered(kind, data), ..self }
    }

    /// After a read of one kind. The details cursor stays on a key.
    pub open spec fn reread(self, kind: Kind, data: ScopeData, was: Option<Seq<char>>) -> Self {
        let lists = self.lists.reread(kind, data, was);
        ScopeView {
            lists,
            key_cursor: if kind == self.kind {
                least(
                    self.key_cursor as int,
                    most(lists.keys(self.kind, data).len() - 1, 0),
                ) as usize
            } else {
                self.key_cursor
            },
            ..self
        }
    }

    pub open spec fn selected_object(self, data: ScopeData) -> Option<ObjectView> {
        self.lists.object(self.kind, data)
    }

    /// The key under the details cursor.
    pub open spec fn selected_key(self, data: ScopeData) -> Option<Seq<char>> {
        self.lists.key_at(self.kind, data, self.key_cursor)
    }

    /// `e` on a pod: its events, the search box narrowed to its name.
    pub open spec fn to_events(self, data: ScopeData) -> Self {
        let then = self.showing(Kind::Events);
        match self.lists.pod(data) {
            Some(pod) => ScopeView { lists: then.lists.events_narrowed(pod.key.name@), ..then },
            None => then,
        }
    }

    /// `Enter` on an event: the pod it is about, when it is about one that is
    /// on the table.
    pub open spec fn to_object(self, shell: ShellView, data: ScopeData) -> (Self, ShellView) {
        match self.lists.event(data) {
            None => (self, shell),
            Some(event) => {
                let object = event.object@;
                if object.kind != "pod"@ {
                    (self, shell.saying(object.slashed() + " is not a pod; d describes it"@))
                } else {
                    let (pods, found) = self.lists.pods.selecting(
                        &data.pods.rows,
                        object.namespace + "/"@ + object.name,
                    );
                    let then = ScopeView { lists: ListsView { pods, ..self.lists }, ..self };
                    if found {
                        (then.showing(Kind::Pods), shell)
                    } else {
                        (then, shell.saying(object.name + " is no longer on the table"@))
                    }
                }
            },
        }
    }

    /// What the log pane should be following.
    pub open spec fn desired_log(self, scope: usize, data: ScopeData) -> Option<LogView> {
        if !self.pane.shows(PaneText::Log) || self.kind != Kind::Pods {
            None
        } else {
            match self.lists.pod(data) {
                None => None,
                Some(pod) => Some(self.log.desired(scope, pod)),
            }
        }
    }

    /// The pane settled on a new stream, from its start.
    pub open spec fn following(self, target: Option<LogView>) -> Self {
        ScopeView {
            log: self.log.following(target),
            pane: PaneView {
                scroll: ScrollState { offset: 0, content: 0, viewport: 0 },
                ..self.pane
            },
            ..self
        }
    }

    /// With lines put on the end of the log they belong to.
    pub open spec fn logged(self, target: LogView, added: Seq<Seq<char>>, finished: bool) -> Self {
        ScopeView { log: self.log.logged(target, added, finished), ..self }
    }

    /// One text has come back.
    pub open spec fn with_text(
        self,
        kind: TextKind,
        object: ObjectView,
        text: Result<Seq<Seq<char>>, Seq<char>>,
    ) -> Self {
        ScopeView { texts: self.texts.with(kind, object, text), ..self }
    }

    /// The pane open on something. On the log it is pinned to the tail.
    pub open spec fn pane_on(self, text: PaneText) -> Self {
        ScopeView {
            pane: self.pane.on(text),
            log: if text == PaneText::Log {
                LogPaneView { follow: true, ..self.log }
            } else {
                self.log
            },
            ..self
        }
    }

    pub open spec fn log_toggled(self) -> Self {
        if self.pane.shows(PaneText::Log) {
            self.pane_closed()
        } else {
            self.pane_on(PaneText::Log)
        }
    }

    /// `d` or `v`: the pane on that text, and the request that fetches it
    /// when nothing has yet.
    pub open spec fn with_text_shown(self, scope: usize, kind: TextKind, data: ScopeData) -> (
        Self,
        Option<RequestView>,
    ) {
        match self.selected_object(data) {
            None => (self, None),
            Some(object) => {
                let then = self.pane_on(pane_of(kind));
                if self.texts.get(kind, object) is Some {
                    (then, None)
                } else {
                    (
                        ScopeView { texts: then.texts.awaiting(kind, object), ..then },
                        Some(text_request(kind, scope, object)),
                    )
                }
            },
        }
    }

    /// `C`: the log moves to the pod's next container.
    pub open spec fn container_changed(self, shell: ShellView, data: ScopeData) -> (
        Self,
        ShellView,
    ) {
        match self.lists.pod(data) {
            None => (self, shell),
            Some(pod) => if pod.containers@.len() < 2 {
                (self, shell.saying(pod.key.name@ + " has one container"@))
            } else {
                let next = self.log.next_of(pod.containers@);
                let then = ScopeView { log: self.log.choosing(pod, next), ..self };
                (then.pane_on(PaneText::Log), shell.saying("Following "@ + next))
            },
        }
    }

    /// `P`: the log from before the last restart, on or off.
    pub open spec fn previous_toggled(self, shell: ShellView) -> (Self, ShellView) {
        let then = ScopeView {
            log: LogPaneView { previous: !self.log.previous, ..self.log },
            ..self
        };
        (
            then.pane_on(PaneText::Log),
            shell.saying(
                if then.log.previous {
                    "Following the log from before the last restart"@
                } else {
                    "Following the running log"@
                },
            ),
        )
    }

    /// Leaving the tab: a value on screen goes, and one on its way is not
    /// wanted when it lands.
    pub open spec fn looked_away(self) -> Self {
        ScopeView { value: ValueView::empty(), ..self }
    }

    /// `r`: what describe, yaml and the owners said is stale, and a value on
    /// screen goes.
    pub open spec fn refreshed(self) -> Self {
        ScopeView {
            texts: TextsView::empty(),
            owners: OwnersView::empty(),
            value: ValueView::empty(),
            ..self
        }
    }

    /// `Enter` or `v` on a configmap or a secret.
    pub open spec fn value_shown(self, scope: usize, data: ScopeData) -> (
        Self,
        Option<RequestView>,
    ) {
        match (self.selected_object(data), self.selected_key(data)) {
            (Some(object), Some(key)) => {
                let then = self.pane_on(PaneText::Value);
                if self.kind != Kind::Secrets {
                    (then, None)
                } else if self.value.shows(object, key) {
                    (ScopeView { value: self.value.hidden(), ..then }, None)
                } else {
                    (
                        ScopeView { value: self.value.awaiting(object, key, false), ..then },
                        Some(RequestView::SecretValue { scope, object, key, copy: false }),
                    )
                }
            },
            _ => (self, None),
        }
    }

    /// The value of a configmap's key, nothing where it has none.
    pub open spec fn configmap_value(self, data: ScopeData, key: Seq<char>) -> Option<Seq<char>> {
        match self.lists.configmap(data) {
            Some(held) => value_under(held.data@, key),
            None => None,
        }
    }

    /// `y` on a configmap or a secret.
    pub open spec fn value_copied(self, shell: ShellView, scope: usize, data: ScopeData) -> (
        Self,
        ShellView,
        ActionView,
    ) {
        match (self.selected_object(data), self.selected_key(data)) {
            (None, _) => (self, shell, ActionView::Nothing),
            (Some(object), None) => (
                self,
                shell.warning(object.name + " has no keys"@),
                ActionView::Nothing,
            ),
            (Some(object), Some(key)) => match self.kind {
                Kind::ConfigMaps => (
                    self,
                    shell,
                    copied_key(
                        match self.configmap_value(data, key) {
                            Some(value) => value,
                            None => Seq::empty(),
                        },
                        key,
                        object.name,
                    ),
                ),
                Kind::Secrets => if self.value.shows(object, key) {
                    (self, shell, copied_key(self.value.revealed->0.value, key, object.name))
                } else {
                    (
                        ScopeView { value: self.value.awaiting(object, key, true), ..self },
                        shell.saying("Reading "@ + key + "…"@),
                        ActionView::Kube(
                            RequestView::SecretValue { scope, object, key, copy: true },
                        ),
                    )
                },
                _ => (self, shell, ActionView::Nothing),
            },
        }
    }

    /// Whether the cursor is on that key of that secret.
    pub open spec fn is_on(self, data: ScopeData, object: ObjectView, key: Seq<char>) -> bool {
        &&& self.kind == Kind::Secrets
        &&& self.selected_object(data) == Some(object)
        &&& self.selected_key(data) == Some(key)
    }

    /// A value has come back.
    pub open spec fn answered(
        self,
        shell: ShellView,
        data: ScopeData,
        object: ObjectView,
        key: Seq<char>,
        copy: bool,
        value: Result<Seq<char>, Seq<char>>,
    ) -> (Self, ShellView, ActionView) {
        if !self.value.awaits(object, key) {
            (self, shell, ActionView::Nothing)
        } else {
            let held = ValueView { reading: None, ..self.value };
            let still_here = self.is_on(data, object, key);
            match value {
                Err(message) => (
                    ScopeView {
                        value: if still_here {
                            ValueView { refusal: Some(message), ..held }
                        } else {
                            held
                        },
                        ..self
                    },
                    if copy {
                        shell.warning(message)
                    } else {
                        shell
                    },
                    ActionView::Nothing,
                ),
                Ok(value) => if copy {
                    (
                        ScopeView { value: held, ..self },
                        shell,
                        copied_key(value, key, object.name),
                    )
                } else {
                    (
                        ScopeView {
                            value: if still_here {
                                ValueView {
                                    revealed: Some(
                                        RevealedView { object, key, value, at: shell.clock },
                                    ),
                                    ..held
                                }
                            } else {
                                held
                            },
                            ..self
                        },
                        shell,
                        ActionView::Nothing,
                    )
                },
            }
        }
    }

    /// What the Value pane paints: a configmap's value, a revealed secret's,
    /// or nothing.
    pub open spec fn value_lines(self, data: ScopeData) -> Seq<Seq<char>> {
        match (self.kind, self.selected_object(data), self.selected_key(data)) {
            (Kind::ConfigMaps, _, Some(key)) => match self.configmap_value(data, key) {
                Some(value) => lines_of(value),
                None => Seq::empty(),
            },
            (Kind::Secrets, Some(object), Some(key)) => if self.value.shows(object, key) {
                lines_of(self.value.revealed->0.value)
            } else {
                Seq::empty()
            },
            _ => Seq::empty(),
        }
    }

    pub open spec fn value_synced(self, data: ScopeData) -> Self {
        if self.pane.text != PaneText::Value {
            self
        } else {
            ScopeView { pane: self.pane.painting(self.value_lines(data)), ..self }
        }
    }

    /// With a value that has run out taken off the screen.
    pub open spec fn aged(self, now: u64) -> Self {
        ScopeView { value: self.value.aged(now), ..self }
    }

    /// The `kubectl` line that does by hand what the pane shows.
    pub open spec fn kubectl(self, context: Seq<char>, data: ScopeData) -> Option<Seq<char>> {
        match self.selected_object(data) {
            None => None,
            Some(object) => {
                let prefix = "kubectl --context "@ + context + " -n "@ + object.namespace;
                Some(
                    if self.pane.shows(PaneText::Describe) {
                        prefix + " describe "@ + object.slashed()
                    } else if self.pane.shows(PaneText::Yaml) {
                        prefix + " get "@ + object.slashed() + " -o yaml"@
                    } else {
                        match self.kind {
                            Kind::Pods => self.log_line(prefix + " logs -f "@ + object.name, object.name),
                            Kind::Events => prefix + " describe "@ + object.slashed(),
                            Kind::ConfigMaps => prefix + " get "@ + object.slashed()
                                + " -o yaml"@,
                            Kind::Secrets => prefix + " get secret "@ + object.name
                                + " -o jsonpath='{.data."@ + (match self.selected_key(data) {
                                Some(key) => key,
                                None => Seq::empty(),
                            }) + "}' | base64 -d"@,
                        }
                    },
                )
            },
        }
    }

    /// The line that follows a pod's log, with the container it follows and
    /// the run it is from.
    pub open spec fn log_line(self, line: Seq<char>, name: Seq<char>) -> Seq<char> {
        let with_container = match self.log.target {
            Some(target) if target.key.name == name => match target.container {
                Some(container) => line + " -c "@ + container,
                None => line,
            },
            _ => line,
        };
        if self.log.previous {
            with_container + " -p"@
        } else {
            with_container
        }
    }

    /// The owner read the cursor has settled on, when its counts are not on
    /// file and it is a kind that has any.
    pub open spec fn owner_asked(self, scope: usize, data: ScopeData) -> (
        Self,
        Option<RequestView>,
    ) {
        let owner = match self.lists.pod(data) {
            Some(pod) => owner_view(pod),
            None => None,
        };
        match owner {
            Some(object) if self.kind == Kind::Pods && scalable(object.kind) && !self.owners.has(
                object,
            ) && self.owners.pending != Some(object) => (
                ScopeView { owners: self.owners.awaiting(object), ..self },
                Some(RequestView::Owner { scope, object }),
            ),
            _ => (self, None),
        }
    }

    /// An owner has said how many replicas it has. The scale modal, if it is
    /// open on this owner, learns the count too.
    pub open spec fn with_owner(
        self,
        object: ObjectView,
        replicas: Result<Replicas, Seq<char>>,
    ) -> Self {
        ScopeView {
            modal: match replicas {
                Ok(count) => modal_told(self.modal, object, count),
                Err(_) => self.modal,
            },
            owners: self.owners.with(object, replicas),
            ..self
        }
    }

    /// `x`: asks, rather than deleting.
    pub open spec fn restart_asked(self, shell: ShellView, data: ScopeData) -> (Self, ShellView) {
        match self.lists.pod(data) {
            None => (self, shell.warning("No pod is selected"@)),
            Some(pod) => match pod.owner {
                None => (
                    self,
                    shell.warning(
                        pod.key.name@
                            + " has no controller to put it back; deleting it would not restart it"@,
                    ),
                ),
                Some((kind, owner)) => (
                    ScopeView { modal: Some(restart_question(pod.key@, kind@, owner@)), ..self },
                    shell,
                ),
            },
        }
    }

    /// `X`: a rollout restart of the owner.
    pub open spec fn rollout_asked(self, shell: ShellView, data: ScopeData) -> (Self, ShellView) {
        match self.lists.pod(data) {
            None => (self, shell.warning("No pod is selected"@)),
            Some(pod) => match owner_view(pod) {
                Some(object) if rollable(object.kind) => (
                    ScopeView { modal: Some(rollout_question(object)), ..self },
                    shell,
                ),
                _ => (
                    self,
                    shell.warning(
                        pod.key.name@
                            + " is not under a deployment, statefulset or daemonset; nothing to roll"@,
                    ),
                ),
            },
        }
    }

    /// `=`: the scale modal on the owner.
    pub open spec fn scale_asked(self, shell: ShellView, scope: usize, data: ScopeData) -> (
        Self,
        ShellView,
        Option<RequestView>,
    ) {
        match self.lists.pod(data) {
            None => (self, shell.warning("No pod is selected"@), None),
            Some(pod) => match owner_view(pod) {
                Some(object) if scalable(object.kind) => {
                    let current = self.owners.replicas_of(object);
                    let then = ScopeView { modal: Some(scale_question(object, current)), ..self };
                    if current is Some || self.owners.pending == Some(object) {
                        (then, shell, None)
                    } else {
                        (
                            ScopeView { owners: self.owners.awaiting(object), ..then },
                            shell,
                            Some(RequestView::Owner { scope, object }),
                        )
                    }
                },
                _ => (
                    self,
                    shell.warning(
                        pod.key.name@
                            + " is not under a deployment, statefulset or replicaset; nothing to scale"@,
                    ),
                    None,
                ),
            },
        }
    }

    pub open spec fn dismissed(self) -> Self {
        ScopeView { modal: None, ..self }
    }

    /// The modal's yes, however it was given.
    pub open spec fn confirmed(self, shell: ShellView, scope: usize) -> (
        Self,
        ShellView,
        Option<RequestView>,
    ) {
        match self.modal {
            None => (self, shell, None),
            Some(ModalView::Confirm { verb: VerbView::Restart(key), .. }) => (
                self.dismissed(),
                shell.saying("Restarting "@ + key.name + "…"@),
                Some(RequestView::Delete { scope, key }),
            ),
            Some(ModalView::Confirm { verb: VerbView::Rollout(object), .. }) => (
                self.dismissed(),
                shell.saying("Restarting the rollout of "@ + object.slashed() + "…"@),
                Some(RequestView::RolloutRestart { scope, object }),
            ),
            Some(ModalView::Scale { object, input, .. }) => match replicas_in(input.text) {
                Some(replicas) => (
                    self.dismissed(),
                    shell.saying(
                        "Scaling "@ + object.slashed() + " to "@ + decimal(replicas as nat)
                            + "…"@,
                    ),
                    Some(RequestView::Scale { scope, object, replicas }),
                ),
                None => (self, shell.warning("Replicas must be a whole number"@), None),
            },
        }
    }

    /// A key while a modal is open.
    pub open spec fn modal_pressed(self, shell: ShellView, scope: usize, key: KeyEvent) -> (
        Self,
        ShellView,
        Option<RequestView>,
    ) {
        match self.modal {
            None => (self, shell, None),
            Some(ModalView::Confirm { verb, .. }) => if confirms(verb, key) {
                self.confirmed(shell, scope)
            } else {
                (self.dismissed(), shell, None)
            },
            Some(ModalView::Scale { object, input, current }) => match key.code {
                KeyCode::Enter => self.confirmed(shell, scope),
                KeyCode::Esc => (self.dismissed(), shell, None),
                _ => (
                    ScopeView {
                        modal: Some(
                            ModalView::Scale { object, input: input.pressed(key), current },
                        ),
                        ..self
                    },
                    shell,
                    None,
                ),
            },
        }
    }

    /// What `b` runs a shell in.
    pub open spec fn shell_in(self, context: Seq<char>, data: ScopeData) -> Option<ActionView> {
        match self.lists.pod(data) {
            None => None,
            Some(pod) => Some(
                ActionView::Exec {
                    context,
                    namespace: pod.key.namespace@,
                    pod: pod.key.name@,
                    container: self.log.container_of(pod.key@),
                },
            ),
        }
    }

    /// The cursor is on another row: a value on screen goes, what the last
    /// key refused with goes, and the details are back at their top.
    pub open spec fn cursor_moved(self) -> Self {
        ScopeView {
            details_scroll: self.details_scroll.scrolled_to(0),
            key_cursor: 0,
            value: self.value.left(),
            ..self
        }
    }

    /// With the list of the kind showing replaced; on another row, what
    /// belonged to the last one goes.
    pub open spec fn with_list_moved(self, list: ListView) -> Self {
        let then = self.with_list(self.kind, list);
        if list.cursor.index != self.list().cursor.index {
            then.cursor_moved()
        } else {
            then
        }
    }

    /// With the details cursor on a key; on another key, a value on screen
    /// goes.
    pub open spec fn with_key(self, at: usize) -> Self {
        if at == self.key_cursor {
            self
        } else {
            ScopeView { key_cursor: at, value: self.value.left(), ..self }
        }
    }

    /// The text pane scrolled by hand: following while the tail shows.
    pub open spec fn pane_scrolled(self, delta: int) -> Self {
        let pane = self.pane.scrolled_to(self.pane.scroll.offset + delta);
        ScopeView {
            pane,
            log: LogPaneView { follow: pane.at_the_tail(), ..self.log },
            ..self
        }
    }

    pub open spec fn details_scrolled(self, delta: int) -> Self {
        ScopeView {
            details_scroll: self.details_scroll.scrolled_to(self.details_scroll.offset + delta),
            ..self
        }
    }

    /// The text pane's keys.
    pub open spec fn pane_pressed(self, code: KeyCode) -> Self {
        let page = self.pane.scroll.page_rows();
        match code {
            KeyCode::Char('j') | KeyCode::Down => self.pane_scrolled(1),
            KeyCode::Char('k') | KeyCode::Up => self.pane_scrolled(-1),
            KeyCode::PageDown => self.pane_scrolled(page),
            KeyCode::PageUp => self.pane_scrolled(-page),
            KeyCode::Home => self.pane_scrolled(i32::MIN as int),
            KeyCode::End => ScopeView {
                pane: self.pane.scrolled_to(usize::MAX as int),
                log: LogPaneView { follow: true, ..self.log },
                ..self
            },
            _ => self,
        }
    }

    /// Whether `j` and `k` walk the keys of a configmap or a secret.
    pub open spec fn walks_keys(self) -> bool {
        &&& self.kind == Kind::ConfigMaps || self.kind == Kind::Secrets
        &&& !self.pane.open || self.pane.text == PaneText::Value
    }

    /// A key of the details while they walk the keys.
    pub open spec fn keys_pressed(self, count: int, code: KeyCode) -> Self {
        let last = most(count - 1, 0);
        match code {
            // The value pane scrolls by the page; the keys move by the row.
            KeyCode::PageUp | KeyCode::PageDown => self.pane_pressed(code),
            KeyCode::Char('j') | KeyCode::Down => self.with_key(
                least(self.key_cursor + 1, last) as usize,
            ),
            KeyCode::Char('k') | KeyCode::Up => self.with_key(
                most(self.key_cursor - 1, 0) as usize,
            ),
            KeyCode::Home => self.with_key(0),
            KeyCode::End => self.with_key(last as usize),
            _ => self,
        }
    }

    /// A key while the details have focus.
    pub open spec fn details_pressed(self, data: ScopeData, code: KeyCode) -> Self {
        let page = self.details_scroll.page_rows();
        if self.walks_keys() {
            self.keys_pressed(self.lists.keys(self.kind, data).len() as int, code)
        } else if self.pane.open {
            self.pane_pressed(code)
        } else {
            match code {
                KeyCode::Char('j') | KeyCode::Down => self.details_scrolled(1),
                KeyCode::Char('k') | KeyCode::Up => self.details_scrolled(-1),
                KeyCode::PageDown => self.details_scrolled(page),
                KeyCode::PageUp => self.details_scrolled(-page),
                _ => self,
            }
        }
    }

    /// One key the shell did not take.
    pub open spec fn pressed(self, focus: Focus, data: ScopeData, key: KeyEvent) -> Self {
        let list = self.list();
        if focus == Focus::Details {
            self.details_pressed(data, key.code)
        } else {
            match key.code {
                KeyCode::Char('j') | KeyCode::Down => self.with_list_moved(list.moved(1, false)),
                KeyCode::Char('k') | KeyCode::Up => self.with_list_moved(list.moved(-1, false)),
                KeyCode::PageDown => self.with_list_moved(list.moved(1, true)),
                KeyCode::PageUp => self.with_list_moved(list.moved(-1, true)),
                KeyCode::Home => self.with_list_moved(list.moved(isize::MIN as int, false)),
                KeyCode::End => self.with_list_moved(list.moved(isize::MAX as int, false)),
                KeyCode::Char('S') => self.with_list(self.kind, list.next_sorted()),
                KeyCode::Char('R') => self.with_list(
                    self.kind,
                    ListView { descending: !list.descending, ..list },
                ),
                _ => self,
            }
        }
    }

    pub open spec fn clicked(self, shell: ShellView, target: Target) -> (Self, ShellView) {
        match target {
            Target::Row(index) => (self.with_list_moved(self.list().clicked(index)), shell),
            Target::Header(column) => (
                self.with_list(self.kind, self.list().sorted_by(column, self.default_sort())),
                shell,
            ),
            Target::KeyRow(index) => (self.with_key(index), shell.focused(Focus::Details)),
            _ => (self, shell),
        }
    }

    pub open spec fn wheeled(self, target: Option<Target>, delta: int) -> Self {
        match target {
            Some(Target::Details) | Some(Target::KeyRow(_)) | Some(Target::Button(_))
                => self.details_scrolled(delta),
            Some(Target::TextPane) => self.pane_scrolled(delta),
            _ => self.with_list_moved(self.list().wheeled(delta)),
        }
    }

    pub open spec fn hint(self, focus: Focus) -> Seq<char> {
        match focus {
            Focus::Search => search_hint(),
            Focus::PaneSearch => "Esc/Enter keep the filter  Ctrl-U empties it"@,
            _ => if focus == Focus::Details && self.pane.open {
                "j/k scroll  End follow  / filter  z zoom  P previous  C container  Tab table  Esc close"@
            } else if focus == Focus::Details && (self.kind == Kind::ConfigMaps || self.kind
                == Kind::Secrets) {
                "j/k key  Enter value  y copy  Tab table"@
            } else {
                kind_hint(self.kind)
            },
        }
    }
}

/// What the footer says of a kind's table.
pub open spec fn kind_hint(kind: Kind) -> Seq<char> {
    match kind {
        Kind::Pods =>
            "↑↓/jk move  Enter logs  b bash  x restart  = scale  d describe  e events  / search  ? help"@,
        Kind::Events => "↑↓/jk move  Enter pod  d describe  v yaml  p pods  / search  ? help"@,
        Kind::ConfigMaps =>
            "↑↓/jk move  Enter value  y copy  d describe  p pods  / search  ? help"@,
        Kind::Secrets =>
            "↑↓/jk move  Enter reveal 60 s  y copy unseen  d describe  p pods  ? help"@,
    }
}

/// The question that restarts a pod.
pub open spec fn restart_question(key: PodKeyView, kind: Seq<char>, owner: Seq<char>) -> ModalView {
    ModalView::Confirm {
        title: "Restart pod"@,
        body: seq![
            "Restart "@ + key.name + "?"@,
            Seq::empty(),
            "Deletes the pod; "@ + kind + " "@ + owner + " replaces it."@,
        ],
        verb: VerbView::Restart(key),
    }
}

/// The question that restarts a rollout.
pub open spec fn rollout_question(object: ObjectView) -> ModalView {
    ModalView::Confirm {
        title: "Rollout restart"@,
        body: seq![
            "Restart the rollout of "@ + object.slashed() + "?"@,
            Seq::empty(),
            "Every pod of it is replaced, one at a time."@,
        ],
        verb: VerbView::Rollout(object),
    }
}

/// The question that scales an owner, the current count filled in where it is
/// known.
pub open spec fn scale_question(object: ObjectView, current: Option<Replicas>) -> ModalView {
    ModalView::Scale {
        object,
        input: InputView::holding(
            match current {
                Some(count) => decimal(count.desired as nat),
                None => Seq::empty(),
            },
        ),
        current,
    }
}

/// The question once an owner has said how many replicas it has: where it is
/// about that owner, it learns the count, and an empty box is filled with it.
pub open spec fn modal_told(
    modal: Option<ModalView>,
    object: ObjectView,
    count: Replicas,
) -> Option<ModalView> {
    match modal {
        Some(ModalView::Scale { object: held, input, .. }) if held == object => Some(
            ModalView::Scale {
                object: held,
                input: if input.text.len() == 0 {
                    InputView::holding(decimal(count.desired as nat))
                } else {
                    input
                },
                current: Some(count),
            },
        ),
        _ => modal,
    }
}

/// The replicas a typed text asks for: a whole number that fits.
pub open spec fn replicas_in(text: Seq<char>) -> Option<u32> {
    match whole(trimmed(text)) {
        Some(n) if n <= u32::MAX => Some(n as u32),
        _ => None,
    }
}

/// Whether a key is the confirmation's own. With a modifier it is not the
/// key: Ctrl-X asks nothing.
pub open spec fn confirms(verb: VerbView, key: KeyEvent) -> bool {
    &&& !key.control
    &&& !key.alt
    &&& match verb {
        VerbView::Restart(_) => key.code == KeyCode::Enter || key.code == KeyCode::Char('x'),
        VerbView::Rollout(_) => key.code == KeyCode::Enter || key.code == KeyCode::Char('X'),
    }
}

// ---------------------------------------------------------------------------
// The screen
// ---------------------------------------------------------------------------

pub struct ScopeScreen {
    pub kind: Kind,
    pub lists: Lists,
    /// How far down the details pane is scrolled.
    pub details_scroll: ScrollState,
    /// Which key of a configmap or a secret the details cursor is on.
    pub key_cursor: usize,
    /// The text pane.
    pub pane: Pane,
    pub log: LogPane,
    /// What describe and `get -o yaml` said this run, by object.
    pub texts: Texts,
    /// The question on top of the table, while one is asked.
    pub modal: Option<Modal>,
    /// What each scalable owner said about its replicas this run.
    pub owners: Owners,
    pub value: ShownValue,
}

impl View for ScopeScreen {
    type V = ScopeView;

    open spec fn view(&self) -> ScopeView {
        ScopeView {
            kind: self.kind,
            lists: self.lists@,
            details_scroll: self.details_scroll,
            key_cursor: self.key_cursor,
            pane: self.pane@,
            log: self.log@,
            texts: self.texts@,
            modal: modal_view(self.modal),
            owners: self.owners@,
            value: self.value@,
        }
    }
}

fn lookup<'a>(data: &'a Vec<(String, String)>, key: &str) -> (r: Option<&'a String>)
    ensures
        match r {
            Some(value) => value_under(data@, key@) == Some(value@),
            None => value_under(data@, key@) is None,
        },
{
    let mut i: usize = 0;
    proof {
        assert(data@.skip(0) =~= data@);
    }
    while i < data.len()
        invariant
            i <= data@.len(),
            value_under(data@, key@) == value_under(data@.skip(i as int), key@),
        decreases data@.len() - i,
    {
        proof {
            assert(data@.skip(i as int).skip(1) =~= data@.skip(i + 1));
        }
        if equal(data[i].0.as_str(), key) {
            return Some(&data[i].1);
        }
        i = i + 1;
    }
    None
}

fn join3(a: &str, b: &str, c: &str) -> (r: String)
    ensures
        r@ == a@ + b@ + c@,
{
    let mut text = a.to_owned();
    text.push_str(b);
    text.push_str(c);
    text
}

fn copied_action(value: &str, key: &str, name: &str) -> (r: AppAction)
    ensures
        r@ == copied_key(value@, key@, name@),
{
    let mut label = "Copied ".to_owned();
    label.push_str(key);
    label.push_str(" of ");
    label.push_str(name);
    AppAction::Copy { text: value.to_owned(), label }
}

fn restart_modal(pod: &Pod, kind: &str, owner: &str) -> (r: Modal)
    ensures
        r@ == restart_question(pod.key@, kind@, owner@),
{
    let first = join3("Restart ", pod.key.name.as_str(), "?");
    let mut last = "Deletes the pod; ".to_owned();
    last.push_str(kind);
    last.push_str(" ");
    last.push_str(owner);
    last.push_str(" replaces it.");
    let ghost said = seq![first@, Seq::<char>::empty(), last@];
    let body = vec![first, String::new(), last];
    proof {
        assert(texts(body@) =~= said);
    }
    Modal::Confirm {
        title: "Restart pod".to_owned(),
        body,
        verb: Verb::Restart(pod.key.clone()),
    }
}

fn rollout_modal(object: ObjectRef) -> (r: Modal)
    ensures
        r@ == rollout_question(object@),
{
    let first = join3("Restart the rollout of ", object.slash().as_str(), "?");
    let last = "Every pod of it is replaced, one at a time.".to_owned();
    let ghost said = seq![first@, Seq::<char>::empty(), last@];
    let body = vec![first, String::new(), last];
    proof {
        assert(texts(body@) =~= said);
    }
    Modal::Confirm { title: "Rollout restart".to_owned(), body, verb: Verb::Rollout(object) }
}

fn scale_modal(object: ObjectRef, current: Option<Replicas>) -> (r: Modal)
    ensures
        r@ == scale_question(object@, current),
{
    let filled = match current {
        Some(count) => number(count.desired as u64),
        None => String::new(),
    };
    Modal::Scale { object, input: TextInput::new(filled.as_str()), current }
}

fn tell_modal(modal: Option<Modal>, owner: &ObjectRef, count: Replicas) -> (r: Option<Modal>)
    ensures
        modal_view(r) == modal_told(modal_view(modal), owner@, count),
{
    match modal {
        Some(Modal::Scale { object, input, current }) => {
            if object.is(owner) {
                let mut input = input;
                if input.is_empty() {
                    input.set_text(number(count.desired as u64).as_str());
                }
                Some(Modal::Scale { object, input, current: Some(count) })
            } else {
                Some(Modal::Scale { object, input, current })
            }
        },
        other => other,
    }
}

fn parse_replicas(text: &str) -> (r: Option<u32>)
    ensures
        r == replicas_in(text@),
{
    match parse_whole(trim(text).as_str()) {
        Some(n) => if n <= 0xffff_ffff {
            Some(n as u32)
        } else {
            None
        },
        None => None,
    }
}

fn is_confirmed(verb: &Verb, key: KeyEvent) -> (r: bool)
    ensures
        r == confirms(verb@, key),
{
    !key.control && !key.alt && match verb {
        Verb::Restart(_) => key.code == KeyCode::Enter || key.code == KeyCode::Char('x'),
        Verb::Rollout(_) => key.code == KeyCode::Enter || key.code == KeyCode::Char('X'),
    }
}

impl ScopeScreen {
    /// A tab's screen. A tab over every namespace says which each row is in.
    #[must_use]
    pub fn new(all_namespaces: bool) -> (r: Self)
        ensures
            r@ == ScopeView::opening(all_namespaces),
    {
        ScopeScreen {
            kind: Kind::Pods,
            lists: Lists::new(all_namespaces),
            details_scroll: ScrollState::default(),
            key_cursor: 0,
            pane: Pane::new(),
            log: LogPane::new(),
            texts: Texts::new(),
            modal: None,
            owners: Owners::new(),
            value: ShownValue::new(),
        }
    }

    // ── The lists ──────────────────────────────────────────────────────

    /// The list of the kind showing.
    #[must_use]
    pub fn list(&self) -> (r: &ListState)
        ensures
            r@ == self@.list(),
    {
        self.lists.of(self.kind)
    }

    pub fn list_mut(&mut self) -> (r: &mut ListState)
        ensures
            r@ == old(self)@.list(),
            final(self)@ == old(self)@.with_list(old(self)@.kind, final(r)@),
    {
        self.lists.of_mut(self.kind)
    }

    #[must_use]
    pub fn list_of(&self, kind: Kind) -> (r: &ListState)
        ensures
            r@ == self@.lists.of(kind),
    {
        self.lists.of(kind)
    }

    pub fn list_of_mut(&mut self, kind: Kind) -> (r: &mut ListState)
        ensures
            r@ == old(self)@.lists.of(kind),
            final(self)@ == old(self)@.with_list(kind, final(r)@),
    {
        self.lists.of_mut(kind)
    }

    /// The default sort of the kind showing, for the header click's third
    /// state.
    #[must_use]
    pub fn default_sort(&self) -> (r: ColumnId)
        ensures
            r == self@.default_sort(),
    {
        match self.kind {
            Kind::Pods => Pod::default_sort(),
            Kind::Events => K8sEvent::default_sort(),
            Kind::ConfigMaps => ConfigMap::default_sort(),
            Kind::Secrets => SecretMeta::default_sort(),
        }
    }

    /// Another kind: its list is where it was left; the pane, the details
    /// cursor and any value on screen are not carried across.
    pub fn set_kind(&mut self, kind: Kind)
        ensures
            final(self)@ == old(self)@.showing(kind),
    {
        if self.kind == kind {
            return;
        }
        self.kind = kind;
        self.pane.close();
        self.details_scroll.scroll_to(0);
        self.key_cursor = 0;
        self.value.leave();
    }

    /// Rebuilds the shown rows of the kind showing.
    pub fn refilter(&mut self, data: &ScopeData)
        ensures
            final(self)@ == old(self)@.refiltered(old(self)@.kind, *data),
    {
        self.lists.refilter(self.kind, data);
    }

    pub fn refilter_kind(&mut self, kind: Kind, data: &ScopeData)
        ensures
            final(self)@ == old(self)@.refiltered(kind, *data),
    {
        self.lists.refilter(kind, data);
    }

    /// After a read of one kind: the list's rows moved, so it is rebuilt
    /// under a cursor that stays on its own row.
    pub fn rows_changed(&mut self, kind: Kind, data: &ScopeData, was: Option<String>)
        ensures
            final(self)@ == old(self)@.reread(kind, *data, said(was)),
    {
        self.lists.rows_changed(kind, data, was);
        if kind == self.kind {
            let last: usize = self.keys(data).len().saturating_sub(1);
            if self.key_cursor > last {
                self.key_cursor = last;
            }
        }
    }

    /// What one kind's cursor is on, by identity, before its rows move.
    #[must_use]
    pub fn cursor_identity(&self, kind: Kind, data: &ScopeData) -> (r: Option<String>)
        ensures
            said(r) == self@.lists.identity(kind, *data),
    {
        self.lists.cursor_identity(kind, data)
    }

    // ── What is under the cursor ───────────────────────────────────────

    /// The pod under the Pods list's cursor, whatever kind shows.
    #[must_use]
    pub fn selected_pod<'a>(&self, data: &'a ScopeData) -> (r: Option<&'a Pod>)
        ensures
            r == match self@.lists.pod(*data) {
                Some(pod) => Some(&pod),
                None => None::<&Pod>,
            },
    {
        self.lists.pod(data)
    }

    #[must_use]
    pub fn selected_event<'a>(&self, data: &'a ScopeData) -> (r: Option<&'a K8sEvent>)
        ensures
            r == match self@.lists.event(*data) {
                Some(event) => Some(&event),
                None => None::<&K8sEvent>,
            },
    {
        self.lists.event(data)
    }

    #[must_use]
    pub fn selected_configmap<'a>(&self, data: &'a ScopeData) -> (r: Option<&'a ConfigMap>)
        ensures
            r == match self@.lists.configmap(*data) {
                Some(held) => Some(&held),
                None => None::<&ConfigMap>,
            },
    {
        self.lists.configmap(data)
    }

    #[must_use]
    pub fn selected_secret<'a>(&self, data: &'a ScopeData) -> (r: Option<&'a SecretMeta>)
        ensures
            r == match self@.lists.secret(*data) {
                Some(held) => Some(&held),
                None => None::<&SecretMeta>,
            },
    {
        self.lists.secret(data)
    }

    /// The object the kind showing has under its cursor: the pod, what the
    /// event is about, the configmap, the secret.
    #[must_use]
    pub fn selected_object(&self, data: &ScopeData) -> (r: Option<ObjectRef>)
        ensures
            object_said(r) == self@.selected_object(*data),
    {
        self.lists.object(self.kind, data)
    }

    /// The name of what is under the cursor, for `y`.
    #[must_use]
    pub fn selected_name(&self, data: &ScopeData) -> (r: Option<String>)
        ensures
            said(r) == match self@.selected_object(*data) {
                Some(object) => Some(object.name),
                None => None::<Seq<char>>,
            },
    {
        match self.selected_object(data) {
            Some(object) => Some(object.name),
            None => None,
        }
    }

    /// The keys of the configmap or secret under the cursor, each with what
    /// the details pane says beside it.
    #[must_use]
    pub fn keys(&self, data: &ScopeData) -> (r: Vec<(String, String)>)
        ensures
            crate::filter::pairs(r@) == self@.lists.keys(self@.kind, *data),
            r@.len() == self@.lists.keys(self@.kind, *data).len(),
    {
        self.lists.keys(self.kind, data)
    }

    /// The key under the details cursor.
    #[must_use]
    pub fn selected_key(&self, data: &ScopeData) -> (r: Option<String>)
        ensures
            said(r) == self@.selected_key(*data),
    {
        self.lists.key_at(self.kind, data, self.key_cursor)
    }

    /// What the bottom border says: how many rows of how many, and the sort.
    #[must_use]
    pub fn status(&self, data: &ScopeData) -> (r: String)
        ensures
            r@ == self@.list().bordered(data.summary(self@.kind).0),
    {
        self.list().status(data.listing(self.kind).count)
    }

    /// `✗ N` while N pods are in trouble.
    #[must_use]
    pub fn badge(data: &ScopeData) -> (r: Option<String>)
        ensures
            said(r) == scope_badge(*data),
    {
        let count: usize = data.unhealthy();
        if count > 0 {
            let mut badge = "✗ ".to_owned();
            badge.push_str(number(count as u64).as_str());
            Some(badge)
        } else {
            None
        }
    }

    // ── Jumps between kinds ────────────────────────────────────────────

    /// `e` on a pod: its events, the search box narrowed to its name.
    pub fn events_for_selected_pod(&mut self, data: &ScopeData)
        ensures
            final(self)@ == old(self)@.to_events(*data),
    {
        let name = match self.selected_pod(data) {
            Some(pod) => Some(pod.key.name.clone()),
            None => None,
        };
        self.set_kind(Kind::Events);
        if let Some(name) = name {
            self.lists.narrow_events(name.as_str());
        }
    }

    /// `Enter` on an event: the pod it is about, when it is about one that is
    /// on the table.
    pub fn jump_to_object(&mut self, shell: &mut Shell, data: &ScopeData)
        ensures
            (final(self)@, final(shell)@) == old(self)@.to_object(old(shell)@, *data),
    {
        let object = match self.selected_event(data) {
            Some(event) => event.object.clone(),
            None => return,
        };
        if !equal(object.kind.as_str(), "pod") {
            let mut said = object.slash();
            said.push_str(" is not a pod; d describes it");
            shell.set_status(said.as_str());
            return;
        }
        let identity = join3(object.namespace.as_str(), "/", object.name.as_str());
        if self.lists.pods.select(&data.pods.rows, identity.as_str()) {
            self.set_kind(Kind::Pods);
        } else {
            let mut said = object.name;
            said.push_str(" is no longer on the table");
            shell.set_status(said.as_str());
        }
    }

    // ── The text pane ──────────────────────────────────────────────────

    /// What the log pane should be following: the pod under the cursor, the
    /// container chosen if the pane is still on the pod it was chosen for,
    /// and whether the run before the last restart was asked for. `None`
    /// while the pane is closed, showing something else, or the tab is on
    /// another kind. The app diffs this against what the worker was last
    /// told.
    #[must_use]
    pub fn log_target(&self, scope: usize, data: &ScopeData) -> (r: Option<LogFollow>)
        ensures
            log_said(r) == self@.desired_log(scope, *data),
    {
        if !self.pane.shows(PaneText::Log) || self.kind != Kind::Pods {
            return None;
        }
        match self.selected_pod(data) {
            None => None,
            Some(pod) => Some(self.log.desired(scope, pod)),
        }
    }

    /// Settles the pane on a new stream. A different target is a different
    /// stream: the lines held were the last one's, and the pane goes back to
    /// the tail of the new one.
    pub fn begin_follow(&mut self, target: Option<LogFollow>)
        ensures
            final(self)@ == old(self)@.following(log_said(target)),
    {
        self.log.begin(target);
        self.pane.scroll = ScrollState::default();
    }

    /// What the pane is on now, which is what the lines held belong to.
    #[must_use]
    pub fn following(&self) -> (r: Option<&LogFollow>)
        ensures
            r == match self.log.target {
                Some(held) => Some(&held),
                None => None::<&LogFollow>,
            },
    {
        self.log.target.as_ref()
    }

    /// Folds lines onto the end of the log. Lines for a stream the pane has
    /// already left are dropped rather than mixed into the one it is on.
    pub fn append_log(&mut self, target: &LogFollow, lines: Vec<String>, finished: bool)
        ensures
            final(self)@ == old(self)@.logged(target@, texts(lines@), finished),
    {
        self.log.append(target, lines, finished);
    }

    #[must_use]
    pub fn log_lines(&self) -> (r: &Vec<String>)
        ensures
            texts(r@) == self@.log.lines,
    {
        &self.log.lines
    }

    /// Whether the log pane is pinned to the tail, which is what `End` puts
    /// it back to and scrolling up takes it out of.
    #[must_use]
    pub fn log_following(&self) -> (r: bool)
        ensures
            r == self@.log.follow,
    {
        self.log.follow
    }

    /// Whether the stream the pane is on has ended.
    #[must_use]
    pub fn log_ended(&self) -> (r: bool)
        ensures
            r == self@.log.finished,
    {
        self.log.finished
    }

    #[must_use]
    pub fn previous(&self) -> (r: bool)
        ensures
            r == self@.log.previous,
    {
        self.log.previous
    }

    /// What describe or yaml said about one object, if it has come back.
    #[must_use]
    pub fn text(&self, kind: TextKind, object: &ObjectRef) -> (r: Option<
        &Result<Vec<String>, String>,
    >)
        ensures
            match self@.texts.get(kind, object@) {
                Some(text) => r matches Some(held) && text_said(*held) == text,
                None => r is None,
            },
    {
        self.texts.get(kind, object)
    }

    /// Whether a describe or yaml for this object is out and not yet back.
    #[must_use]
    pub fn text_pending(&self, kind: TextKind, object: &ObjectRef) -> (r: bool)
        ensures
            r == (self@.texts.pending == Some((kind, object@))),
    {
        self.texts.is_pending(kind, object)
    }

    /// One text has come back. Kept whichever row the cursor is on now: the
    /// cursor coming back to that object shows it without asking again.
    pub fn set_text(
        &mut self,
        kind: TextKind,
        object: ObjectRef,
        text: Result<Vec<String>, String>,
    )
        ensures
            final(self)@ == old(self)@.with_text(kind, object@, text_said(text)),
    {
        self.texts.put(kind, object, text);
    }

    /// `Enter` or `l` on a pod: the log pane, open with the pod's log; again,
    /// closed. Says whether the pane is open afterwards.
    pub fn toggle_log(&mut self) -> (r: bool)
        ensures
            final(self)@ == old(self)@.log_toggled(),
            r == final(self)@.pane.open,
    {
        if self.pane.shows(PaneText::Log) {
            self.close_pane();
            false
        } else {
            self.open_pane(PaneText::Log);
            true
        }
    }

    /// `d` or `v`: the pane on that text, and the request that fetches it
    /// when nothing has yet, for the object under the cursor.
    pub fn show_text(&mut self, scope: usize, kind: TextKind, data: &ScopeData) -> (r: Option<
        Request,
    >)
        ensures
            (final(self)@, request_said(r)) == old(self)@.with_text_shown(scope, kind, *data),
    {
        match self.selected_object(data) {
            None => None,
            Some(object) => {
                self.open_pane(
                    match kind {
                        TextKind::Describe => PaneText::Describe,
                        TextKind::Yaml => PaneText::Yaml,
                    },
                );
                if self.texts.get(kind, &object).is_some() {
                    return None;
                }
                self.texts.await_one(kind, object.clone());
                Some(
                    match kind {
                        TextKind::Describe => Request::Describe { scope, object },
                        TextKind::Yaml => Request::Yaml { scope, object },
                    },
                )
            },
        }
    }

    fn open_pane(&mut self, text: PaneText)
        ensures
            final(self)@ == old(self)@.pane_on(text),
    {
        self.pane.open_on(text);
        if text == PaneText::Log {
            self.log.follow = true;
        }
    }

    /// `Esc` with the pane showing: closed, and the follow goes with it on
    /// the next tick.
    pub fn close_pane(&mut self)
        ensures
            final(self)@ == old(self)@.pane_closed(),
    {
        self.pane.close();
    }

    /// `z`: the text pane alone in the details area, and back.
    pub fn toggle_zoom(&mut self)
        ensures
            final(self)@ == (ScopeView { pane: old(self)@.pane.zoomed(), ..old(self)@ }),
    {
        self.pane.toggle_zoom();
    }

    /// `C`: the log moves to the pod's next container, round to the first
    /// again. A pod with one container says so rather than doing nothing.
    pub fn next_container(&mut self, shell: &mut Shell, data: &ScopeData)
        ensures
            (final(self)@, final(shell)@) == old(self)@.container_changed(old(shell)@, *data),
    {
        let pod = match self.selected_pod(data) {
            Some(pod) => pod,
            None => return,
        };
        if pod.containers.len() < 2 {
            let mut said = pod.key.name.clone();
            said.push_str(" has one container");
            shell.set_status(said.as_str());
            return;
        }
        let next = self.log.next_of(&pod.containers);
        let mut said = "Following ".to_owned();
        said.push_str(next.as_str());
        shell.set_status(said.as_str());
        self.log.choose_container(pod, next);
        self.open_pane(PaneText::Log);
    }

    /// `P`: the `-p` on the log the pane follows, on or off. The run before
    /// the last restart is where a crash loop says why.
    pub fn toggle_previous(&mut self, shell: &mut Shell)
        ensures
            (final(self)@, final(shell)@) == old(self)@.previous_toggled(old(shell)@),
    {
        self.log.previous = !self.log.previous;
        shell.set_status(
            if self.log.previous {
                "Following the log from before the last restart"
            } else {
                "Following the running log"
            },
        );
        self.open_pane(PaneText::Log);
    }

    /// `r`: what describe, yaml and the owners said is stale, and a value on
    /// screen goes; the lists re-read on their own.
    pub fn on_refresh(&mut self)
        ensures
            final(self)@ == old(self)@.refreshed(),
    {
        self.texts.clear();
        self.owners.clear();
        self.look_away();
    }

    /// Leaving the tab: a value on screen goes, and one on its way is not
    /// wanted when it lands.
    pub fn look_away(&mut self)
        ensures
            final(self)@ == old(self)@.looked_away(),
    {
        self.value.leave();
        self.value.reading = None;
    }

    // ── Values ─────────────────────────────────────────────────────────

    /// `Enter` or `v` on a configmap or a secret: the key's value in the text
    /// pane. A configmap's is on file; a secret's is asked for, one key at a
    /// time, and shown for sixty seconds — or hidden again when it already
    /// shows.
    pub fn show_value(&mut self, scope: usize, data: &ScopeData) -> (r: Option<Request>)
        ensures
            (final(self)@, request_said(r)) == old(self)@.value_shown(scope, *data),
    {
        let object = match self.selected_object(data) {
            Some(object) => object,
            None => return None,
        };
        let key = match self.selected_key(data) {
            Some(key) => key,
            None => return None,
        };
        self.open_pane(PaneText::Value);
        if self.kind != Kind::Secrets {
            return None;
        }
        if self.value.shows(&object, key.as_str()) {
            self.value.revealed = None;
            return None;
        }
        self.value.await_one(object.clone(), key.clone(), false);
        Some(Request::SecretValue { scope, object, key, copy: false })
    }

    fn configmap_value(&self, data: &ScopeData, key: &str) -> (r: Option<String>)
        ensures
            said(r) == self@.configmap_value(*data, key@),
    {
        match self.selected_configmap(data) {
            Some(held) => match lookup(&held.data, key) {
                Some(value) => Some(value.clone()),
                None => None,
            },
            None => None,
        }
    }

    /// `y` on a configmap or a secret: the key's value on the clipboard. A
    /// secret's is read for that alone and never shown.
    pub fn copy_value(&mut self, shell: &mut Shell, scope: usize, data: &ScopeData) -> (r:
        AppAction)
        ensures
            (final(self)@, final(shell)@, r@) == old(self)@.value_copied(
                old(shell)@,
                scope,
                *data,
            ),
    {
        let object = match self.selected_object(data) {
            Some(object) => object,
            None => return AppAction::Nothing,
        };
        let key = match self.selected_key(data) {
            Some(key) => key,
            None => {
                let mut said = object.name;
                said.push_str(" has no keys");
                shell.set_error(said.as_str());
                return AppAction::Nothing;
            },
        };
        match self.kind {
            Kind::ConfigMaps => {
                let value = match self.configmap_value(data, key.as_str()) {
                    Some(value) => value,
                    None => String::new(),
                };
                copied_action(value.as_str(), key.as_str(), object.name.as_str())
            },
            Kind::Secrets => {
                if self.value.shows(&object, key.as_str()) {
                    if let Some(held) = &self.value.revealed {
                        // One of the two places a value is read out.
                        return copied_action(
                            held.value.expose(),
                            key.as_str(),
                            object.name.as_str(),
                        );
                    }
                }
                self.value.await_one(object.clone(), key.clone(), true);
                shell.set_status(join3("Reading ", key.as_str(), "…").as_str());
                AppAction::Kube(Request::SecretValue { scope, object, key, copy: true })
            },
            _ => AppAction::Nothing,
        }
    }

    /// Whether the cursor is on that key of that secret.
    fn is_on(&self, data: &ScopeData, object: &ObjectRef, key: &str) -> (r: bool)
        ensures
            r == self@.is_on(*data, object@, key@),
    {
        self.kind == Kind::Secrets && match self.selected_object(data) {
            Some(here) => here.is(object),
            None => false,
        } && match self.selected_key(data) {
            Some(here) => equal(here.as_str(), key),
            None => false,
        }
    }

    /// A value has come back. Kept only if the cursor is still on the key
    /// that asked; a value for a key somebody has left is dropped on the
    /// floor rather than shown next to the wrong name.
    pub fn on_secret_value(
        &mut self,
        shell: &mut Shell,
        data: &ScopeData,
        object: ObjectRef,
        key: String,
        copy: bool,
        value: Result<Secret, String>,
    ) -> (r: AppAction)
        ensures
            (final(self)@, final(shell)@, r@) == old(self)@.answered(
                old(shell)@,
                *data,
                object@,
                key@,
                copy,
                value_said(value),
            ),
    {
        if !self.value.awaits(&object, key.as_str()) {
            return AppAction::Nothing;
        }
        let still_here = self.is_on(data, &object, key.as_str());
        self.value.reading = None;
        match value {
            Err(message) => {
                if copy {
                    shell.set_error(message.as_str());
                }
                if still_here {
                    self.value.refusal = Some(message);
                }
                AppAction::Nothing
            },
            Ok(secret) => {
                if copy {
                    // The other place a value is read out: `y` with nothing on
                    // screen, copying blind, which is the common case.
                    return copied_action(secret.expose(), key.as_str(), object.name.as_str());
                }
                if still_here {
                    self.value.revealed = Some(
                        Revealed { object, key, value: secret, at: shell.clock },
                    );
                }
                AppAction::Nothing
            },
        }
    }

    /// The value on screen, if it is this key's.
    #[must_use]
    pub fn revealed_here(&self, data: &ScopeData) -> (r: Option<&Revealed>)
        ensures
            match (self@.selected_object(*data), self@.selected_key(*data)) {
                (Some(object), Some(key)) => {
                    &&& r is Some == self@.value.shows(object, key)
                    &&& r matches Some(held) ==> self.value.revealed == Some(*held)
                },
                _ => r is None,
            },
    {
        let object = match self.selected_object(data) {
            Some(object) => object,
            None => return None,
        };
        let key = match self.selected_key(data) {
            Some(key) => key,
            None => return None,
        };
        if self.value.shows(&object, key.as_str()) {
            self.value.revealed.as_ref()
        } else {
            None
        }
    }

    /// Whether a value for the key under the cursor has been asked for and
    /// not come back.
    #[must_use]
    pub fn reading_here(&self, data: &ScopeData) -> (r: bool)
        ensures
            r == match (self@.selected_object(*data), self@.selected_key(*data)) {
                (Some(object), Some(key)) => self@.value.awaits(object, key),
                _ => false,
            },
    {
        match self.selected_object(data) {
            None => false,
            Some(object) => match self.selected_key(data) {
                None => false,
                Some(key) => self.value.awaits(&object, key.as_str()),
            },
        }
    }

    #[must_use]
    pub fn refusal(&self) -> (r: Option<&String>)
        ensures
            r == match self.value.refusal {
                Some(held) => Some(&held),
                None => None::<&String>,
            },
    {
        self.value.refusal.as_ref()
    }

    fn current_value_lines(&self, data: &ScopeData) -> (r: Vec<String>)
        ensures
            texts(r@) == self@.value_lines(*data),
    {
        let none: Vec<String> = Vec::new();
        proof {
            assert(texts(none@) =~= Seq::<Seq<char>>::empty());
        }
        match self.kind {
            Kind::ConfigMaps => match self.selected_key(data) {
                Some(key) => match self.configmap_value(data, key.as_str()) {
                    Some(value) => lines(value.as_str()),
                    None => none,
                },
                None => none,
            },
            Kind::Secrets => match self.revealed_here(data) {
                Some(held) => lines(held.value.expose()),
                None => none,
            },
            _ => none,
        }
    }

    /// Rebuilds what the Value pane paints from the key under the details
    /// cursor: a configmap's value, a revealed secret's, or nothing.
    pub fn sync_value(&mut self, data: &ScopeData)
        ensures
            final(self)@ == old(self)@.value_synced(*data),
    {
        if self.pane.text != PaneText::Value {
            return;
        }
        let painted = self.current_value_lines(data);
        self.pane.paint(painted);
    }

    /// What the Value pane paints.
    #[must_use]
    pub fn pane_value(&self) -> (r: &Vec<String>)
        ensures
            texts(r@) == self@.pane.value,
    {
        &self.pane.value
    }

    /// One turn of the clock: a value that has run out goes.
    pub fn tick_reveal(&mut self, now: u64)
        ensures
            final(self)@ == old(self)@.aged(now),
    {
        self.value.age(now);
    }

    /// Whether the run loop should wake every second: a value is counting
    /// down or being waited for.
    #[must_use]
    pub fn is_ticking(&self) -> (r: bool)
        ensures
            r == (self@.value.revealed is Some || self@.value.reading is Some),
    {
        self.value.revealed.is_some() || self.value.reading.is_some()
    }

    fn push_log_line(&self, line: &mut String, name: &str)
        ensures
            final(line)@ == self@.log_line(old(line)@, name@),
    {
        if let Some(held) = &self.log.target {
            if equal(held.key.name.as_str(), name) {
                if let Some(container) = &held.container {
                    line.push_str(" -c ");
                    line.push_str(container.as_str());
                }
            }
        }
        if self.log.previous {
            line.push_str(" -p");
        }
    }

    /// The `kubectl` line that does by hand what the pane shows: what `Y`
    /// copies.
    #[must_use]
    pub fn kubectl_line(&self, tab: &ScopeTab, data: &ScopeData) -> (r: Option<String>)
        ensures
            said(r) == self@.kubectl(tab.scope@.context, *data),
    {
        let object = match self.selected_object(data) {
            Some(object) => object,
            None => return None,
        };
        let mut line = "kubectl --context ".to_owned();
        line.push_str(tab.scope.context.as_str());
        line.push_str(" -n ");
        line.push_str(object.namespace.as_str());
        let describe = self.pane.shows(PaneText::Describe);
        let yaml = self.pane.shows(PaneText::Yaml);
        if describe || (!yaml && self.kind == Kind::Events) {
            line.push_str(" describe ");
            line.push_str(object.slash().as_str());
        } else if yaml || self.kind == Kind::ConfigMaps {
            line.push_str(" get ");
            line.push_str(object.slash().as_str());
            line.push_str(" -o yaml");
        } else if self.kind == Kind::Pods {
            line.push_str(" logs -f ");
            line.push_str(object.name.as_str());
            self.push_log_line(&mut line, object.name.as_str());
        } else {
            line.push_str(" get secret ");
            line.push_str(object.name.as_str());
            line.push_str(" -o jsonpath='{.data.");
            let ghost head = line@;
            match self.selected_key(data) {
                Some(key) => line.push_str(key.as_str()),
                None => {
                    proof {
                        assert(line@ =~= head + Seq::<char>::empty());
                    }
                },
            }
            line.push_str("}' | base64 -d");
        }
        Some(line)
    }

    // ── Actions ────────────────────────────────────────────────────────

    /// The replica counts of the pod's owner, once they have come back.
    #[must_use]
    pub fn owner_of(&self, pod: &Pod) -> (r: Option<Replicas>)
        ensures
            r == match owner_view(*pod) {
                Some(object) => self@.owners.replicas_of(object),
                None => None::<Replicas>,
            },
    {
        match owner_object(pod) {
            Some(object) => self.owners.replicas_of(&object),
            None => None,
        }
    }

    /// The owner read the cursor has settled on, when its counts are not on
    /// file and it is a kind that has any.
    pub fn owner_request(&mut self, scope: usize, data: &ScopeData) -> (r: Option<Request>)
        ensures
            (final(self)@, request_said(r)) == old(self)@.owner_asked(scope, *data),
    {
        if self.kind != Kind::Pods {
            return None;
        }
        let object = match self.selected_pod(data) {
            Some(pod) => match owner_object(pod) {
                Some(object) => object,
                None => return None,
            },
            None => return None,
        };
        if !is_scalable(object.kind.as_str()) || self.owners.has(&object) || self.owners.is_pending(
            &object,
        ) {
            return None;
        }
        self.owners.await_one(object.clone());
        Some(Request::Owner { scope, object })
    }

    pub fn set_owner(&mut self, object: ObjectRef, replicas: Result<Replicas, String>)
        ensures
            final(self)@ == old(self)@.with_owner(object@, replicas_said(replicas)),
    {
        // The scale modal, if it is open on this owner, learns the count too.
        if let Ok(count) = &replicas {
            let modal = self.modal.take();
            self.modal = tell_modal(modal, &object, *count);
        }
        self.owners.put(object, replicas);
    }

    /// `x`: asks, rather than deleting. A pod nothing put there is refused
    /// outright — deleting it would take it away for good rather than
    /// restart it.
    pub fn restart_prompt(&mut self, shell: &mut Shell, data: &ScopeData)
        ensures
            (final(self)@, final(shell)@) == old(self)@.restart_asked(old(shell)@, *data),
    {
        let pod = match self.selected_pod(data) {
            Some(pod) => pod,
            None => {
                shell.set_error("No pod is selected");
                return;
            },
        };
        match &pod.owner {
            None => {
                let mut said = pod.key.name.clone();
                said.push_str(
                    " has no controller to put it back; deleting it would not restart it",
                );
                shell.set_error(said.as_str());
            },
            Some((kind, owner)) => {
                self.modal = Some(restart_modal(pod, kind.as_str(), owner.as_str()));
            },
        }
    }

    /// `X`: a rollout restart of the owner, which replaces every pod of it
    /// one at a time. Refused for an owner that has no rollout.
    pub fn rollout_prompt(&mut self, shell: &mut Shell, data: &ScopeData)
        ensures
            (final(self)@, final(shell)@) == old(self)@.rollout_asked(old(shell)@, *data),
    {
        let pod = match self.selected_pod(data) {
            Some(pod) => pod,
            None => {
                shell.set_error("No pod is selected");
                return;
            },
        };
        if let Some(object) = owner_object(pod) {
            if is_rollable(object.kind.as_str()) {
                self.modal = Some(rollout_modal(object));
                return;
            }
        }
        let mut said = pod.key.name.clone();
        said.push_str(" is not under a deployment, statefulset or daemonset; nothing to roll");
        shell.set_error(said.as_str());
    }

    /// `=`: the scale modal on the owner, with the current count filled in
    /// once it is known. The request reads it when it is not on file.
    pub fn scale_prompt(&mut self, shell: &mut Shell, scope: usize, data: &ScopeData) -> (r: Option<
        Request,
    >)
        ensures
            (final(self)@, final(shell)@, request_said(r)) == old(self)@.scale_asked(
                old(shell)@,
                scope,
                *data,
            ),
    {
        let pod = match self.selected_pod(data) {
            Some(pod) => pod,
            None => {
                shell.set_error("No pod is selected");
                return None;
            },
        };
        if let Some(object) = owner_object(pod) {
            if is_scalable(object.kind.as_str()) {
                let current = self.owners.replicas_of(&object);
                self.modal = Some(scale_modal(object.clone(), current));
                // Not on file: ask, and the answer fills the box when it lands.
                if current.is_some() || self.owners.is_pending(&object) {
                    return None;
                }
                self.owners.await_one(object.clone());
                return Some(Request::Owner { scope, object });
            }
        }
        let mut said = pod.key.name.clone();
        said.push_str(" is not under a deployment, statefulset or replicaset; nothing to scale");
        shell.set_error(said.as_str());
        None
    }

    /// A key while a modal is open. Answers the request when the modal was
    /// answered yes; closes it on `Esc` and, for a confirmation, on any key
    /// that is not its own.
    pub fn modal_key(&mut self, shell: &mut Shell, scope: usize, key: KeyEvent) -> (r: Option<
        Request,
    >)
        ensures
            (final(self)@, final(shell)@, request_said(r)) == old(self)@.modal_pressed(
                old(shell)@,
                scope,
                key,
            ),
    {
        let (yes, typed) = match &self.modal {
            None => return None,
            Some(Modal::Confirm { verb, .. }) => (is_confirmed(verb, key), false),
            Some(Modal::Scale { .. }) => (
                key.code == KeyCode::Enter,
                key.code != KeyCode::Enter && key.code != KeyCode::Esc,
            ),
        };
        if yes {
            return self.confirm(shell, scope);
        }
        if typed {
            if let Some(Modal::Scale { object, input, current }) = self.modal.take() {
                let mut input = input;
                input.handle_key(key);
                self.modal = Some(Modal::Scale { object, input, current });
            }
            return None;
        }
        self.dismiss();
        None
    }

    /// The modal's yes, however it was given: the one place a change is
    /// sent from.
    pub fn confirm(&mut self, shell: &mut Shell, scope: usize) -> (r: Option<Request>)
        ensures
            (final(self)@, final(shell)@, request_said(r)) == old(self)@.confirmed(
                old(shell)@,
                scope,
            ),
    {
        match self.modal.take() {
            None => None,
            Some(Modal::Confirm { verb, .. }) => Some(
                match verb {
                    Verb::Restart(key) => {
                        shell.set_status(join3("Restarting ", key.name.as_str(), "…").as_str());
                        Request::Delete { scope, key }
                    },
                    Verb::Rollout(object) => {
                        shell.set_status(
                            join3(
                                "Restarting the rollout of ",
                                object.slash().as_str(),
                                "…",
                            ).as_str(),
                        );
                        Request::RolloutRestart { scope, object }
                    },
                },
            ),
            Some(Modal::Scale { object, input, current }) => match parse_replicas(input.text()) {
                Some(replicas) => {
                    let mut said = "Scaling ".to_owned();
                    said.push_str(object.slash().as_str());
                    said.push_str(" to ");
                    said.push_str(number(replicas as u64).as_str());
                    said.push_str("…");
                    shell.set_status(said.as_str());
                    Some(Request::Scale { scope, object, replicas })
                },
                None => {
                    shell.set_error("Replicas must be a whole number");
                    self.modal = Some(Modal::Scale { object, input, current });
                    None
                },
            },
        }
    }

    pub fn dismiss(&mut self)
        ensures
            final(self)@ == old(self)@.dismissed(),
    {
        self.modal = None;
    }

    /// What the delete said. A refusal is the user's to see; a delete that
    /// went through is news, because the pod it names is on its way out and
    /// another on its way in.
    pub fn deleted(&self, shell: &mut Shell, data: &ScopeData, key: &PodKey, error: Option<String>)
        ensures
            final(shell)@ == deleted_said(old(shell)@, *data, key@, said(error)),
    {
        match error {
            Some(message) => {
                let mut text = "Could not restart ".to_owned();
                text.push_str(key.name.as_str());
                text.push_str(": ");
                text.push_str(message.as_str());
                shell.set_error(text.as_str());
            },
            None => {
                let mut text = "Deleted ".to_owned();
                text.push_str(key.name.as_str());
                text.push_str(news_of_owner(&data.pods.rows, key).as_str());
                shell.set_status(text.as_str());
            },
        }
    }

    /// What a rollout restart or a scale said.
    pub fn acted(&self, shell: &mut Shell, verb: &str, object: &ObjectRef, error: Option<String>)
        ensures
            final(shell)@ == acted_said(old(shell)@, verb@, object@, said(error)),
    {
        match error {
            Some(message) => {
                let mut text = "Could not ".to_owned();
                text.push_str(verb);
                text.push_str(" ");
                text.push_str(object.slash().as_str());
                text.push_str(": ");
                text.push_str(message.as_str());
                shell.set_error(text.as_str());
            },
            None => {
                let mut text = object.slash();
                text.push_str(" ");
                text.push_str(verb);
                text.push_str(" sent");
                shell.set_status(text.as_str());
            },
        }
    }

    /// What `b` runs a shell in: the pod under the cursor, on the container
    /// the log follows when it follows one.
    #[must_use]
    pub fn bash_target(&self, tab: &ScopeTab, data: &ScopeData) -> (r: Option<AppAction>)
        ensures
            match self@.shell_in(tab.scope@.context, *data) {
                Some(action) => r matches Some(held) && held@ == action,
                None => r is None,
            },
    {
        match self.selected_pod(data) {
            None => None,
            Some(pod) => Some(
                AppAction::Exec {
                    context: tab.scope.context.clone(),
                    namespace: pod.key.namespace.clone(),
                    pod: pod.key.name.clone(),
                    container: self.log.container_of(pod),
                },
            ),
        }
    }

    // ── Keys ───────────────────────────────────────────────────────────

    fn set_key_cursor(&mut self, at: usize)
        ensures
            final(self)@ == old(self)@.with_key(at),
    {
        if self.key_cursor != at {
            self.key_cursor = at;
            self.value.leave();
        }
    }

    fn walk_keys(&mut self, count: usize, code: KeyCode)
        ensures
            final(self)@ == old(self)@.keys_pressed(count as int, code),
    {
        let last: usize = count.saturating_sub(1);
        match code {
            // The value pane scrolls by the page; the keys move by the row.
            KeyCode::PageUp | KeyCode::PageDown => self.pane_key(code),
            KeyCode::Char('j') | KeyCode::Down => {
                let next: usize = self.key_cursor.saturating_add(1);
                self.set_key_cursor(
                    if next < last {
                        next
                    } else {
                        last
                    },
                );
            },
            KeyCode::Char('k') | KeyCode::Up => {
                let at: usize = self.key_cursor.saturating_sub(1);
                self.set_key_cursor(at);
            },
            KeyCode::Home => self.set_key_cursor(0),
            KeyCode::End => self.set_key_cursor(last),
            _ => {},
        }
    }

    fn details_key(&mut self, data: &ScopeData, code: KeyCode)
        ensures
            final(self)@ == old(self)@.details_pressed(*data, code),
    {
        let walking_keys = (self.kind == Kind::ConfigMaps || self.kind == Kind::Secrets) && (
        !self.pane.open || self.pane.text == PaneText::Value);
        if walking_keys {
            let count: usize = self.keys(data).len();
            self.walk_keys(count, code);
        } else if self.pane.open {
            self.pane_key(code);
        } else {
            let page: i32 = self.details_scroll.page_delta();
            match code {
                KeyCode::Char('j') | KeyCode::Down => {
                    self.details_scroll.scroll_by(1);
                },
                KeyCode::Char('k') | KeyCode::Up => {
                    self.details_scroll.scroll_by(-1);
                },
                KeyCode::PageDown => {
                    self.details_scroll.scroll_by(page);
                },
                KeyCode::PageUp => {
                    self.details_scroll.scroll_by(-page);
                },
                _ => {},
            }
        }
    }

    /// Moves the cursor of the list showing, and what belonged to the last
    /// row goes.
    fn move_cursor(&mut self, delta: isize, pages: bool)
        ensures
            final(self)@ == old(self)@.with_list_moved(
                old(self)@.list().moved(delta as int, pages),
            ),
    {
        if self.list_mut().move_cursor(delta, pages) {
            self.cursor_moved();
        }
    }

    /// One key the shell did not take: movement and sorting in the table;
    /// scrolling in whichever pane has the details focus, or the key cursor
    /// on a configmap or a secret.
    pub fn handle_key(&mut self, shell: &Shell, data: &ScopeData, key: KeyEvent) -> (r: AppAction)
        ensures
            final(self)@ == old(self)@.pressed(shell@.focus, *data, key),
            r is Nothing,
    {
        if shell.has_focus(Focus::Details) {
            self.details_key(data, key.code);
            return AppAction::Nothing;
        }
        match key.code {
            KeyCode::Char('j') | KeyCode::Down => self.move_cursor(1, false),
            KeyCode::Char('k') | KeyCode::Up => self.move_cursor(-1, false),
            KeyCode::PageDown => self.move_cursor(1, true),
            KeyCode::PageUp => self.move_cursor(-1, true),
            KeyCode::Home => self.move_cursor(isize::MIN, false),
            KeyCode::End => self.move_cursor(isize::MAX, false),
            KeyCode::Char('S') => self.list_mut().next_sort(),
            KeyCode::Char('R') => {
                let list = self.list_mut();
                list.descending = !list.descending;
            },
            _ => {},
        }
        AppAction::Nothing
    }

    /// Moving the cursor takes a value off the screen with it, clears what
    /// the last key refused with, and puts the details back at their top.
    fn cursor_moved(&mut self)
        ensures
            final(self)@ == old(self)@.cursor_moved(),
    {
        self.details_scroll.scroll_to(0);
        self.key_cursor = 0;
        self.value.leave();
    }

    /// The text pane's keys: scrolling, and following again with `End`.
    /// Scrolling up leaves follow mode; scrolling down to the tail resumes
    /// it.
    fn pane_key(&mut self, code: KeyCode)
        ensures
            final(self)@ == old(self)@.pane_pressed(code),
    {
        let page: i32 = self.pane.scroll.page_delta();
        match code {
            KeyCode::Char('j') | KeyCode::Down => self.scroll_pane(1),
            KeyCode::Char('k') | KeyCode::Up => self.scroll_pane(-1),
            KeyCode::PageDown => self.scroll_pane(page),
            KeyCode::PageUp => self.scroll_pane(-page),
            KeyCode::Home => self.scroll_pane(i32::MIN),
            KeyCode::End => {
                self.pane.scroll_to(usize::MAX);
                self.log.follow = true;
            },
            _ => {},
        }
    }

    /// Scrolls the text pane by hand, wherever the scroll came from, and
    /// keeps the follow flag honest: off when the tail goes out of view, on
    /// when it comes back.
    pub fn scroll_pane(&mut self, delta: i32)
        ensures
            final(self)@ == old(self)@.pane_scrolled(delta as int),
    {
        self.log.follow = self.pane.scroll_by(delta);
    }

    /// A click on a row moves the cursor there; on a header, sorts by it; on
    /// a key of a configmap or secret, puts the details cursor on it.
    pub fn handle_click(&mut self, shell: &mut Shell, target: Target) -> (r: AppAction)
        ensures
            (final(self)@, final(shell)@) == old(self)@.clicked(old(shell)@, target),
            r is Nothing,
    {
        match target {
            Target::Row(index) => {
                if self.list_mut().click_row(index) {
                    self.cursor_moved();
                }
            },
            Target::Header(column) => {
                let default = self.default_sort();
                self.list_mut().sort_by(column, default);
            },
            Target::KeyRow(index) => {
                shell.set_focus(Focus::Details);
                self.set_key_cursor(index);
            },
            _ => {},
        }
        AppAction::Nothing
    }

    pub fn handle_wheel(&mut self, target: Option<Target>, delta: i32)
        ensures
            final(self)@ == old(self)@.wheeled(target, delta as int),
    {
        match target {
            Some(Target::Details) | Some(Target::KeyRow(_)) | Some(Target::Button(_)) => {
                self.details_scroll.scroll_by(delta);
            },
            Some(Target::TextPane) => self.scroll_pane(delta),
            _ => {
                if self.list_mut().wheel(delta) {
                    self.cursor_moved();
                }
            },
        }
    }

    #[must_use]
    pub fn footer_hint(&self, shell: &Shell) -> (r: String)
        ensures
            r@ == self@.hint(shell@.focus),
    {
        let details = shell.has_focus(Focus::Details);
        if shell.has_focus(Focus::Search) {
            "Esc/Enter keep the filter  Esc again clears it  Ctrl-U empties the box".to_owned()
        } else if shell.has_focus(Focus::PaneSearch) {
            "Esc/Enter keep the filter  Ctrl-U empties it".to_owned()
        } else if details && self.pane.open {
            "j/k scroll  End follow  / filter  z zoom  P previous  C container  Tab table  Esc close".to_owned()
        } else if details && (self.kind == Kind::ConfigMaps || self.kind == Kind::Secrets) {
            "j/k key  Enter value  y copy  Tab table".to_owned()
        } else {
            match self.kind {
                Kind::Pods =>
                    "↑↓/jk move  Enter logs  b bash  x restart  = scale  d describe  e events  / search  ? help".to_owned(),
                Kind::Events =>
                    "↑↓/jk move  Enter pod  d describe  v yaml  p pods  / search  ? help".to_owned(),
                Kind::ConfigMaps =>
                    "↑↓/jk move  Enter value  y copy  d describe  p pods  / search  ? help".to_owned(),
                Kind::Secrets =>
                    "↑↓/jk move  Enter reveal 60 s  y copy unseen  d describe  p pods  ? help".to_owned(),
            }
        }
    }
}

/// What a scope tab's badge says: how many of its pods are in trouble.
pub open spec fn scope_badge(data: ScopeData) -> Option<Seq<char>> {
    if troubled(data.pods.rows@) > 0 {
        Some("✗ "@ + decimal(troubled(data.pods.rows@) as nat))
    } else {
        None
    }
}

/// What is said of a pod's owner once the pod has been deleted.
pub open spec fn owner_news(rows: Seq<Pod>, key: PodKeyView) -> Seq<char>
    decreases rows.len(),
{
    if rows.len() == 0 {
        Seq::empty()
    } else if rows[0].key@ == key {
        match rows[0].owner {
            Some((kind, name)) => "; "@ + kind@ + " "@ + name@ + " is putting a new one up"@,
            None => Seq::empty(),
        }
    } else {
        owner_news(rows.skip(1), key)
    }
}

fn news_of_owner(rows: &Vec<Pod>, key: &PodKey) -> (r: String)
    ensures
        r@ == owner_news(rows@, key@),
{
    let mut i: usize = 0;
    proof {
        assert(rows@.skip(0) =~= rows@);
    }
    while i < rows.len() && !rows[i].key.is(key)
        invariant
            i <= rows@.len(),
            owner_news(rows@, key@) == owner_news(rows@.skip(i as int), key@),
        decreases rows@.len() - i,
    {
        proof {
            assert(rows@.skip(i as int).skip(1) =~= rows@.skip(i + 1));
        }
        i = i + 1;
    }
    if i < rows.len() {
        if let Some((kind, name)) = &rows[i].owner {
            let mut news = "; ".to_owned();
            news.push_str(kind.as_str());
            news.push_str(" ");
            news.push_str(name.as_str());
            news.push_str(" is putting a new one up");
            return news;
        }
    }
    String::new()
}

/// What the status bar says once a delete has answered.
pub open spec fn deleted_said(
    shell: ShellView,
    data: ScopeData,
    key: PodKeyView,
    error: Option<Seq<char>>,
) -> ShellView {
    match error {
        Some(message) => shell.warning("Could not restart "@ + key.name + ": "@ + message),
        None => shell.saying("Deleted "@ + key.name + owner_news(data.pods.rows@, key)),
    }
}

/// What the status bar says once a rollout restart or a scale has answered.
pub open spec fn acted_said(
    shell: ShellView,
    verb: Seq<char>,
    object: ObjectView,
    error: Option<Seq<char>>,
) -> ShellView {
    match error {
        Some(message) => shell.warning(
            "Could not "@ + verb + " "@ + object.slashed() + ": "@ + message,
        ),
        None => shell.saying(object.slashed() + " "@ + verb + " sent"@),
    }
}

// ---------------------------------------------------------------------------
// What the tab promises
// ---------------------------------------------------------------------------

/// A change is sent to the cluster only when an open question is answered
/// yes.
pub proof fn law_a_change_is_asked_first(
    screen: ScopeView,
    shell: ShellView,
    scope: usize,
    data: ScopeData,
    kind: TextKind,
    key: KeyEvent,
)
    ensures
        screen.confirmed(shell, scope).2 is Some ==> screen.modal is Some,
        screen.modal_pressed(shell, scope, key).2 is Some ==> screen.modal is Some,
        screen.with_text_shown(scope, kind, data).1 matches Some(request)
            ==> !request.changes_the_cluster(),
        screen.value_shown(scope, data).1 matches Some(request) ==> !request.changes_the_cluster(),
        screen.owner_asked(scope, data).1 matches Some(request) ==> !request.changes_the_cluster(),
        screen.scale_asked(shell, scope, data).2 matches Some(request)
            ==> !request.changes_the_cluster(),
{
}

/// A question that has been answered is gone, unless the answer could not be
/// read.
pub proof fn law_an_answered_question_is_gone(screen: ScopeView, shell: ShellView, scope: usize)
    ensures
        screen.confirmed(shell, scope).2 is Some ==> screen.confirmed(shell, scope).0.modal is None,
        screen.confirmed(shell, scope).2 is None ==> screen.confirmed(shell, scope).0 == screen,
{
}

/// Any key that is not a confirmation's own closes it and sends nothing.
pub proof fn law_any_other_key_closes_a_confirmation(
    screen: ScopeView,
    shell: ShellView,
    scope: usize,
    key: KeyEvent,
)
    requires
        screen.modal matches Some(ModalView::Confirm { verb, .. }) && !confirms(verb, key),
    ensures
        screen.modal_pressed(shell, scope, key) == (
            screen.dismissed(),
            shell,
            None::<RequestView>,
        ),
{
}

/// Each kind keeps its own list: a switch of kinds moves no cursor and
/// touches no query. The pane and a value on screen are not carried across.
pub proof fn law_each_kind_keeps_its_own_list(screen: ScopeView, kind: Kind)
    ensures
        screen.showing(kind).lists == screen.lists,
        screen.showing(kind).kind == kind,
        screen.kind != kind ==> !screen.showing(kind).pane.open,
        screen.kind != kind ==> screen.showing(kind).value.revealed is None,
{
}

/// The value on screen belongs to the key under the cursor.
pub open spec fn value_is_the_keys(screen: ScopeView, data: ScopeData) -> bool {
    screen.value.revealed matches Some(held) ==> screen.is_on(data, held.object, held.key)
}

/// Whatever key is pressed, a value on screen stays with its own key: it goes
/// as soon as the cursor is on another row or another key.
#[verifier::rlimit(40)]
pub proof fn law_a_value_never_stands_next_to_another_key(
    screen: ScopeView,
    focus: Focus,
    data: ScopeData,
    key: KeyEvent,
)
    requires
        value_is_the_keys(screen, data),
    ensures
        value_is_the_keys(screen.pressed(focus, data, key), data),
{
    reveal(ListView::moved);
    reveal(ListView::next_sorted);
    reveal(ListsView::object);
    reveal(ListsView::keys);
    let then = screen.pressed(focus, data, key);
    if then.value.revealed is Some {
        assert(then.kind == screen.kind);
        assert(then.key_cursor == screen.key_cursor);
        if screen.kind == Kind::Secrets {
            assert(then.lists.secrets.selected() == screen.lists.secrets.selected());
            assert(then.lists.secret(data) == screen.lists.secret(data));
        }
    }
}

/// A value that arrives is shown only next to its own key, and one that was
/// copied unseen is not shown at all.
pub proof fn law_a_late_value_is_dropped(
    screen: ScopeView,
    shell: ShellView,
    data: ScopeData,
    object: ObjectView,
    key: Seq<char>,
    copy: bool,
    value: Result<Seq<char>, Seq<char>>,
)
    requires
        value_is_the_keys(screen, data),
    ensures
        ({
            let then = screen.answered(shell, data, object, key, copy, value).0;
            &&& value_is_the_keys(then, data)
            &&& !screen.is_on(data, object, key) ==> then.value.revealed == screen.value.revealed
            &&& copy ==> then.value.revealed == screen.value.revealed
        }),
{
}

/// What is said of a copied value says nothing of the value: two values are
/// told of alike.
pub proof fn law_a_label_says_nothing_of_the_value(
    screen: ScopeView,
    shell: ShellView,
    data: ScopeData,
    object: ObjectView,
    key: Seq<char>,
    copy: bool,
    one: Seq<char>,
    other: Seq<char>,
)
    ensures
        ({
            let (_, said, action) = screen.answered(shell, data, object, key, copy, Ok(one));
            let (_, also, twin) = screen.answered(shell, data, object, key, copy, Ok(other));
            &&& said == also
            &&& match (action, twin) {
                (
                    ActionView::Copy { text, label },
                    ActionView::Copy { text: second, label: same },
                ) => text == one && second == other && label == same,
                _ => action == twin,
            }
        }),
{
}

impl ScopeView {
    /// The tab once lines have come, time after time.
    pub open spec fn logged_all(self, all: Seq<Brought>) -> Self
        decreases all.len(),
    {
        if all.len() == 0 {
            self
        } else {
            self.logged_all(all.drop_last()).logged(
                all.last().target,
                all.last().lines,
                all.last().finished,
            )
        }
    }
}

proof fn lemma_logged_all(screen: ScopeView, all: Seq<Brought>)
    ensures
        screen.logged_all(all) == (ScopeView { log: screen.log.logged_all(all), ..screen }),
    decreases all.len(),
{
    if all.len() > 0 {
        lemma_logged_all(screen, all.drop_last());
    }
}

/// However often lines come, a tab whose pane was settled on a stream shows
/// that stream's lines and no other's: all of them while there is room, and else
/// the newest under a line that counts every one that has gone. Nothing but the
/// log changes.
pub proof fn law_a_log_is_the_tail_of_what_came(
    screen: ScopeView,
    target: LogView,
    all: Seq<Brought>,
)
    requires
        stream_lines(all, target).len() <= usize::MAX,
    ensures
        ({
            let settled = screen.following(Some(target));
            let then = settled.logged_all(all);
            &&& then.log.lines == tail_of(stream_lines(all, target))
            &&& then.log.finished == ended_of(all, target)
            &&& then.log.target == Some(target)
            &&& then == (ScopeView { log: then.log, ..settled })
        }),
{
    lemma_logged_all(screen.following(Some(target)), all);
    super::pane::law_a_log_is_the_tail_of_what_came(screen.log, target, all);
}

/// The tail is followed exactly while it is on screen.
pub proof fn law_the_tail_is_followed_while_it_shows(screen: ScopeView, delta: int)
    ensures
        screen.pane_scrolled(delta).log.follow <==> screen.pane_scrolled(delta).pane.at_the_tail(),
{
}

/// `r` leaves nothing that was read before it: no text, no owner's counts, no
/// value, none on its way.
pub proof fn law_a_refresh_starts_over(screen: ScopeView)
    ensures
        screen.refreshed().texts == TextsView::empty(),
        screen.refreshed().owners == OwnersView::empty(),
        screen.refreshed().value == ValueView::empty(),
        screen.refreshed().lists == screen.lists,
{
}

} // verus!
