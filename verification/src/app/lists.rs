//! The four lists of a scope tab, one per kind, and what is under their
//! cursors.

use vstd::prelude::*;
use vstd::utf8::encode_utf8;

use super::list::{row_name, ListState, ListView, Row};
use crate::columns::{with_visible, ColumnId};
use crate::filter::pairs;
use crate::input::InputView;
use crate::kube::{said, ConfigMap, K8sEvent, Kind, ObjectRef, ObjectView, Pod, SecretMeta};
use crate::store::ScopeData;
use crate::text::{decimal, lines, lines_of, number, texts};

verus! {

/// What the four lists hold.
pub struct ListsView {
    pub pods: ListView,
    pub events: ListView,
    pub configmaps: ListView,
    pub secrets: ListView,
}

/// The row at a place, where there is one.
pub open spec fn picked<T>(at: Option<usize>, rows: Seq<T>) -> Option<T> {
    match at {
        Some(at) if at < rows.len() => Some(rows[at as int]),
        _ => None,
    }
}

/// The size in bytes that a text takes.
pub open spec fn byte_size(text: Seq<char>) -> nat {
    encode_utf8(text).len() as usize as nat
}

/// What the details say beside a configmap's key.
pub open spec fn value_note(value: Seq<char>) -> Seq<char> {
    let count = lines_of(value).len();
    if count > 1 {
        decimal(count) + " lines"@
    } else {
        decimal(byte_size(value)) + " bytes"@
    }
}

/// A configmap's keys, each with what the details say beside it.
pub open spec fn configmap_keys(data: Seq<(String, String)>) -> Seq<(Seq<char>, Seq<char>)> {
    data.map_values(|p: (String, String)| (p.0@, value_note(p.1@)))
}

/// A secret's keys, each with what the details say beside it.
pub open spec fn secret_keys(keys: Seq<(String, u64)>) -> Seq<(Seq<char>, Seq<char>)> {
    keys.map_values(|p: (String, u64)| (p.0@, decimal(p.1 as nat) + " bytes"@))
}

/// A list as it opens, with the namespace column where rows of every
/// namespace are shown.
pub open spec fn opening_list(kind: Kind, sort: ColumnId, all_namespaces: bool) -> ListView {
    let list = ListView::opening(kind, sort);
    if all_namespaces {
        ListView { layout: with_visible(list.layout, ColumnId::Namespace, true), ..list }
    } else {
        list
    }
}

impl ListsView {
    pub open spec fn opening(all_namespaces: bool) -> Self {
        ListsView {
            pods: opening_list(Kind::Pods, ColumnId::Name, all_namespaces),
            events: opening_list(Kind::Events, ColumnId::Age, all_namespaces),
            configmaps: opening_list(Kind::ConfigMaps, ColumnId::Name, all_namespaces),
            secrets: opening_list(Kind::Secrets, ColumnId::Name, all_namespaces),
        }
    }

    pub open spec fn of(self, kind: Kind) -> ListView {
        match kind {
            Kind::Pods => self.pods,
            Kind::Events => self.events,
            Kind::ConfigMaps => self.configmaps,
            Kind::Secrets => self.secrets,
        }
    }

    pub open spec fn with(self, kind: Kind, list: ListView) -> Self {
        match kind {
            Kind::Pods => ListsView { pods: list, ..self },
            Kind::Events => ListsView { events: list, ..self },
            Kind::ConfigMaps => ListsView { configmaps: list, ..self },
            Kind::Secrets => ListsView { secrets: list, ..self },
        }
    }

    /// One kind's list after a look at its rows.
    pub open spec fn refiltered(self, kind: Kind, data: ScopeData) -> Self {
        match kind {
            Kind::Pods => ListsView { pods: self.pods.refiltered(&data.pods.rows), ..self },
            Kind::Events => ListsView { events: self.events.refiltered(&data.events.rows), ..self },
            Kind::ConfigMaps => ListsView {
                configmaps: self.configmaps.refiltered(&data.configmaps.rows),
                ..self
            },
            Kind::Secrets => ListsView {
                secrets: self.secrets.refiltered(&data.secrets.rows),
                ..self
            },
        }
    }

    /// One kind's list after a read: rebuilt under a cursor that stays on its
    /// own row.
    pub open spec fn reread(self, kind: Kind, data: ScopeData, was: Option<Seq<char>>) -> Self {
        match kind {
            Kind::Pods => ListsView {
                pods: self.pods.spoiled().kept(&data.pods.rows, was),
                ..self
            },
            Kind::Events => ListsView {
                events: self.events.spoiled().kept(&data.events.rows, was),
                ..self
            },
            Kind::ConfigMaps => ListsView {
                configmaps: self.configmaps.spoiled().kept(&data.configmaps.rows, was),
                ..self
            },
            Kind::Secrets => ListsView {
                secrets: self.secrets.spoiled().kept(&data.secrets.rows, was),
                ..self
            },
        }
    }

    /// What one kind's cursor is on, by name.
    pub open spec fn identity(self, kind: Kind, data: ScopeData) -> Option<Seq<char>> {
        match kind {
            Kind::Pods => row_name(self.pods.selected(), data.pods.rows@),
            Kind::Events => row_name(self.events.selected(), data.events.rows@),
            Kind::ConfigMaps => row_name(self.configmaps.selected(), data.configmaps.rows@),
            Kind::Secrets => row_name(self.secrets.selected(), data.secrets.rows@),
        }
    }

    pub open spec fn pod(self, data: ScopeData) -> Option<Pod> {
        picked(self.pods.selected(), data.pods.rows@)
    }

    pub open spec fn event(self, data: ScopeData) -> Option<K8sEvent> {
        picked(self.events.selected(), data.events.rows@)
    }

    pub open spec fn configmap(self, data: ScopeData) -> Option<ConfigMap> {
        picked(self.configmaps.selected(), data.configmaps.rows@)
    }

    pub open spec fn secret(self, data: ScopeData) -> Option<SecretMeta> {
        picked(self.secrets.selected(), data.secrets.rows@)
    }

    /// The object one kind has under its cursor: the pod, what the event is
    /// about, the configmap, the secret.
    #[verifier::opaque]
    pub open spec fn object(self, kind: Kind, data: ScopeData) -> Option<ObjectView> {
        match kind {
            Kind::Pods => match self.pod(data) {
                Some(pod) => Some(ObjectView::of_pod(pod.key@)),
                None => None,
            },
            Kind::Events => match self.event(data) {
                Some(event) => Some(event.object@),
                None => None,
            },
            Kind::ConfigMaps => match self.configmap(data) {
                Some(held) => Some(held.object_view()),
                None => None,
            },
            Kind::Secrets => match self.secret(data) {
                Some(held) => Some(held.object_view()),
                None => None,
            },
        }
    }

    /// The keys of the configmap or secret under the cursor, each with what
    /// the details pane says beside it.
    #[verifier::opaque]
    pub open spec fn keys(self, kind: Kind, data: ScopeData) -> Seq<(Seq<char>, Seq<char>)> {
        match kind {
            Kind::ConfigMaps => match self.configmap(data) {
                Some(held) => configmap_keys(held.data@),
                None => Seq::empty(),
            },
            Kind::Secrets => match self.secret(data) {
                Some(held) => secret_keys(held.keys@),
                None => Seq::empty(),
            },
            _ => Seq::empty(),
        }
    }

    /// The key at a place among those.
    pub open spec fn key_at(self, kind: Kind, data: ScopeData, at: usize) -> Option<Seq<char>> {
        let keys = self.keys(kind, data);
        if at < keys.len() {
            Some(keys[at as int].0)
        } else {
            None
        }
    }
}

/// The four lists.
pub struct Lists {
    pub pods: ListState,
    pub events: ListState,
    pub configmaps: ListState,
    pub secrets: ListState,
}

impl View for Lists {
    type V = ListsView;

    open spec fn view(&self) -> ListsView {
        ListsView {
            pods: self.pods@,
            events: self.events@,
            configmaps: self.configmaps@,
            secrets: self.secrets@,
        }
    }
}

pub open spec fn object_said(object: Option<ObjectRef>) -> Option<ObjectView> {
    match object {
        Some(object) => Some(object@),
        None => None,
    }
}

fn open_list(kind: Kind, sort: ColumnId, all_namespaces: bool) -> (r: ListState)
    ensures
        r@ == opening_list(kind, sort, all_namespaces),
{
    let mut list = ListState::new(kind, sort);
    if all_namespaces {
        list.layout.set_visible(ColumnId::Namespace, true);
    }
    list
}

impl Lists {
    #[must_use]
    pub fn new(all_namespaces: bool) -> (r: Self)
        ensures
            r@ == ListsView::opening(all_namespaces),
    {
        Lists {
            pods: open_list(Kind::Pods, Pod::default_sort(), all_namespaces),
            events: open_list(Kind::Events, K8sEvent::default_sort(), all_namespaces),
            configmaps: open_list(Kind::ConfigMaps, ConfigMap::default_sort(), all_namespaces),
            secrets: open_list(Kind::Secrets, SecretMeta::default_sort(), all_namespaces),
        }
    }

    #[must_use]
    pub fn of(&self, kind: Kind) -> (r: &ListState)
        ensures
            r@ == self@.of(kind),
    {
        match kind {
            Kind::Pods => &self.pods,
            Kind::Events => &self.events,
            Kind::ConfigMaps => &self.configmaps,
            Kind::Secrets => &self.secrets,
        }
    }

    pub fn of_mut(&mut self, kind: Kind) -> (r: &mut ListState)
        ensures
            r@ == old(self)@.of(kind),
            final(self)@ == old(self)@.with(kind, final(r)@),
    {
        match kind {
            Kind::Pods => &mut self.pods,
            Kind::Events => &mut self.events,
            Kind::ConfigMaps => &mut self.configmaps,
            Kind::Secrets => &mut self.secrets,
        }
    }

    pub fn refilter(&mut self, kind: Kind, data: &ScopeData)
        ensures
            final(self)@ == old(self)@.refiltered(kind, *data),
    {
        match kind {
            Kind::Pods => self.pods.refilter(&data.pods.rows),
            Kind::Events => self.events.refilter(&data.events.rows),
            Kind::ConfigMaps => self.configmaps.refilter(&data.configmaps.rows),
            Kind::Secrets => self.secrets.refilter(&data.secrets.rows),
        }
    }

    pub fn rows_changed(&mut self, kind: Kind, data: &ScopeData, was: Option<String>)
        ensures
            final(self)@ == old(self)@.reread(kind, *data, said(was)),
    {
        match kind {
            Kind::Pods => {
                self.pods.invalidate();
                self.pods.keep_cursor(&data.pods.rows, was);
            },
            Kind::Events => {
                self.events.invalidate();
                self.events.keep_cursor(&data.events.rows, was);
            },
            Kind::ConfigMaps => {
                self.configmaps.invalidate();
                self.configmaps.keep_cursor(&data.configmaps.rows, was);
            },
            Kind::Secrets => {
                self.secrets.invalidate();
                self.secrets.keep_cursor(&data.secrets.rows, was);
            },
        }
    }

    #[must_use]
    pub fn cursor_identity(&self, kind: Kind, data: &ScopeData) -> (r: Option<String>)
        ensures
            said(r) == self@.identity(kind, *data),
    {
        match kind {
            Kind::Pods => self.pods.cursor_identity(&data.pods.rows),
            Kind::Events => self.events.cursor_identity(&data.events.rows),
            Kind::ConfigMaps => self.configmaps.cursor_identity(&data.configmaps.rows),
            Kind::Secrets => self.secrets.cursor_identity(&data.secrets.rows),
        }
    }

    /// The pod under the Pods list's cursor.
    #[must_use]
    pub fn pod<'a>(&self, data: &'a ScopeData) -> (r: Option<&'a Pod>)
        ensures
            r == match self@.pod(*data) {
                Some(pod) => Some(&pod),
                None => None::<&Pod>,
            },
    {
        match self.pods.selected_index() {
            Some(at) => if at < data.pods.rows.len() {
                Some(&data.pods.rows[at])
            } else {
                None
            },
            None => None,
        }
    }

    #[must_use]
    pub fn event<'a>(&self, data: &'a ScopeData) -> (r: Option<&'a K8sEvent>)
        ensures
            r == match self@.event(*data) {
                Some(event) => Some(&event),
                None => None::<&K8sEvent>,
            },
    {
        match self.events.selected_index() {
            Some(at) => if at < data.events.rows.len() {
                Some(&data.events.rows[at])
            } else {
                None
            },
            None => None,
        }
    }

    #[must_use]
    pub fn configmap<'a>(&self, data: &'a ScopeData) -> (r: Option<&'a ConfigMap>)
        ensures
            r == match self@.configmap(*data) {
                Some(held) => Some(&held),
                None => None::<&ConfigMap>,
            },
    {
        match self.configmaps.selected_index() {
            Some(at) => if at < data.configmaps.rows.len() {
                Some(&data.configmaps.rows[at])
            } else {
                None
            },
            None => None,
        }
    }

    #[must_use]
    pub fn secret<'a>(&self, data: &'a ScopeData) -> (r: Option<&'a SecretMeta>)
        ensures
            r == match self@.secret(*data) {
                Some(held) => Some(&held),
                None => None::<&SecretMeta>,
            },
    {
        match self.secrets.selected_index() {
            Some(at) => if at < data.secrets.rows.len() {
                Some(&data.secrets.rows[at])
            } else {
                None
            },
            None => None,
        }
    }

    /// The object one kind has under its cursor.
    #[must_use]
    pub fn object(&self, kind: Kind, data: &ScopeData) -> (r: Option<ObjectRef>)
        ensures
            object_said(r) == self@.object(kind, *data),
    {
        proof {
            reveal(ListsView::object);
        }
        match kind {
            Kind::Pods => match self.pod(data) {
                Some(pod) => Some(ObjectRef::pod(&pod.key)),
                None => None,
            },
            Kind::Events => match self.event(data) {
                Some(event) => Some(event.object.clone()),
                None => None,
            },
            Kind::ConfigMaps => match self.configmap(data) {
                Some(held) => Some(held.object()),
                None => None,
            },
            Kind::Secrets => match self.secret(data) {
                Some(held) => Some(held.object()),
                None => None,
            },
        }
    }

    /// The keys of the configmap or secret under the cursor, each with what
    /// the details pane says beside it.
    #[must_use]
    pub fn keys(&self, kind: Kind, data: &ScopeData) -> (r: Vec<(String, String)>)
        ensures
            pairs(r@) == self@.keys(kind, *data),
            r@.len() == self@.keys(kind, *data).len(),
    {
        proof {
            reveal(ListsView::keys);
        }
        let mut out: Vec<(String, String)> = Vec::new();
        match kind {
            Kind::ConfigMaps => {
                if let Some(held) = self.configmap(data) {
                    let mut i: usize = 0;
                    while i < held.data.len()
                        invariant
                            i <= held.data@.len(),
                            out@.len() == i,
                            forall|k: int|
                                0 <= k < i ==> (#[trigger] out@[k]).0@ == held.data@[k].0@
                                    && out@[k].1@ == value_note(held.data@[k].1@),
                        decreases held.data@.len() - i,
                    {
                        let value = &held.data[i].1;
                        let all = lines(value.as_str());
                        proof {
                            assert(texts(all@).len() == all@.len());
                        }
                        let mut note;
                        if all.len() > 1 {
                            note = number(all.len() as u64);
                            note.push_str(" lines");
                        } else {
                            note = number(value.as_str().len() as u64);
                            note.push_str(" bytes");
                        }
                        out.push((held.data[i].0.clone(), note));
                        i = i + 1;
                    }
                    proof {
                        assert(pairs(out@) =~= configmap_keys(held.data@));
                    }
                } else {
                    proof {
                        assert(pairs(out@) =~= Seq::<(Seq<char>, Seq<char>)>::empty());
                    }
                }
            },
            Kind::Secrets => {
                if let Some(held) = self.secret(data) {
                    let mut i: usize = 0;
                    while i < held.keys.len()
                        invariant
                            i <= held.keys@.len(),
                            out@.len() == i,
                            forall|k: int|
                                0 <= k < i ==> (#[trigger] out@[k]).0@ == held.keys@[k].0@
                                    && out@[k].1@ == decimal(held.keys@[k].1 as nat) + " bytes"@,
                        decreases held.keys@.len() - i,
                    {
                        let mut note = number(held.keys[i].1);
                        note.push_str(" bytes");
                        out.push((held.keys[i].0.clone(), note));
                        i = i + 1;
                    }
                    proof {
                        assert(pairs(out@) =~= secret_keys(held.keys@));
                    }
                } else {
                    proof {
                        assert(pairs(out@) =~= Seq::<(Seq<char>, Seq<char>)>::empty());
                    }
                }
            },
            _ => {
                proof {
                    assert(pairs(out@) =~= Seq::<(Seq<char>, Seq<char>)>::empty());
                }
            },
        }
        out
    }

    /// The key at a place among those.
    #[must_use]
    pub fn key_at(&self, kind: Kind, data: &ScopeData, at: usize) -> (r: Option<String>)
        ensures
            said(r) == self@.key_at(kind, *data, at),
    {
        let keys = self.keys(kind, data);
        if at < keys.len() {
            proof {
                assert(pairs(keys@)[at as int].0 == keys@[at as int].0@);
            }
            Some(keys[at].0.clone())
        } else {
            None
        }
    }

    /// Narrows the events to one name, from the top.
    pub fn narrow_events(&mut self, name: &str)
        ensures
            final(self)@ == old(self)@.events_narrowed(name@),
    {
        self.events.input.set_text(name);
        self.events.cursor.reset();
    }
}

impl ListsView {
    /// The events narrowed to one name, from the top.
    pub open spec fn events_narrowed(self, name: Seq<char>) -> Self {
        ListsView {
            events: ListView {
                input: InputView::holding(name),
                cursor: self.events.cursor.topped(),
                ..self.events
            },
            ..self
        }
    }
}

/// A look at one kind's rows, or a read of them, leaves the other kinds
/// alone.
pub proof fn law_one_kind_leaves_the_others_alone(
    lists: ListsView,
    kind: Kind,
    other: Kind,
    data: ScopeData,
    was: Option<Seq<char>>,
)
    requires
        kind != other,
    ensures
        lists.refiltered(kind, data).of(other) == lists.of(other),
        lists.reread(kind, data, was).of(other) == lists.of(other),
{
}

} // verus!
