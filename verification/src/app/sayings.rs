//! What is promised of what the screen says: how many rows of how many, what a
//! badge counts, what the status bar tells and whose text the pane shows.

use vstd::prelude::*;

use super::deeds::on_pod;
use super::list::{arrow, border, counted};
use super::lists::ListsView;
use super::pane::{text_at, PaneText, TextView, TextsView};
use super::scope::ScopeView;
use super::screens::ScreenView;
use super::secrets::running_out;
use super::state::{AppView, Tone};
use super::wording::{owner_said, replicas_line};
use crate::columns::ColumnId;
use crate::kube::{self, Kind, Pod, Replicas, TextKind};
use crate::store::ScopeData;
use crate::text::decimal;
use crate::timestamp::Timestamp;

verus! {

/// A border says how many rows show of how many there are, or the one number
/// where all do, then the column and which way it points.
pub proof fn law_a_border_counts_its_rows(
    shown: nat,
    total: nat,
    sort: ColumnId,
    descending: bool,
)
    ensures
        shown != total ==> border(shown as int, total as int, sort, descending) == decimal(shown)
            + "/"@ + decimal(total) + " · "@ + sort.label_text() + " "@ + arrow(descending),
        shown == total ==> border(shown as int, total as int, sort, descending) == decimal(total)
            + " · "@ + sort.label_text() + " "@ + arrow(descending),
        arrow(true) == "↓"@,
        arrow(false) == "↑"@,
{
}

/// A tab is told by its number, counted from one, and its name; a scope's badge
/// counts its pods in trouble and the Secrets tab's the secrets that run out,
/// and there is none where there is nothing to count.
pub proof fn law_a_tab_is_told_by_its_number_and_its_badge(
    app: AppView,
    at: usize,
    today: Timestamp,
)
    requires
        at < app.tabs.len(),
        app.tabs.len() == app.screens.len(),
    ensures
        ({
            let name = decimal((at + 1) as nat) + " "@ + app.tabs[at as int].label_text();
            let said = app.tab_said(at as int, today);
            &&& app.screens[at as int] is Registries ==> said == name
            &&& app.screens[at as int] is Secrets ==> {
                let count = app.store.azure.secrets@.filter(
                    |row: crate::azure::SecretRow| running_out(row, today),
                ).len();
                &&& count == 0 ==> said == name
                &&& count > 0 ==> said =~= name + " ⚠ "@ + decimal(count)
            }
            &&& app.screens[at as int] is Scope && at < app.store.scopes@.len() ==> {
                let count = crate::store::troubled(app.store.scopes@[at as int].pods.rows@);
                &&& count <= 0 ==> said == name
                &&& count > 0 ==> said =~= name + " ✗ "@ + decimal(count as nat)
            }
        }),
{
    reveal(ScreenView::badge);
    reveal_strlit(" ");
    reveal_strlit("⚠ ");
    reveal_strlit(" ⚠ ");
    reveal_strlit("✗ ");
    reveal_strlit(" ✗ ");
    assert(" "@ + "⚠ "@ =~= " ⚠ "@);
    assert(" "@ + "✗ "@ =~= " ✗ "@);
}

/// The status bar tells of the Azure half what is being read, or else the first
/// problem, or else how many there are of what the tab shows.
pub proof fn law_the_status_bar_counts_what_the_tab_shows(
    app: AppView,
    registries: bool,
    spinner: Seq<char>,
    today: Timestamp,
)
    ensures
        ({
            let store = app.store.azure;
            let (said, tone) = app.azure_said(registries, spinner, today);
            &&& tone == Tone::Busy <==> store.refreshing
            &&& tone == Tone::Wrong <==> !store.refreshing && store.problems@.len() > 0
            &&& tone == Tone::Quiet <==> !store.refreshing && store.problems@.len() == 0
            &&& store.refreshing && store.progress is Some ==> said == spinner + " "@
                + store.progress->0@
            &&& !store.refreshing && store.problems@.len() > 0 ==> said == "! "@
                + store.problems@[0].line()
            &&& !store.refreshing && store.problems@.len() == 0 && !registries ==> exists|
                age: Seq<char>,
            |
                said == "● "@ + (decimal(store.inventory.vaults@.len()) + " vaults · "@ + decimal(
                    store.secrets@.len(),
                ) + " secrets"@) + " · "@ + #[trigger] held(age)
            &&& !store.refreshing && store.problems@.len() == 0 && registries ==> exists|
                age: Seq<char>,
            |
                said == "● "@ + (decimal(store.inventory.registries@.len()) + " registries · "@
                    + decimal(store.repositories@.len()) + " repositories"@) + " · "@
                    + #[trigger] held(age)
        }),
{
    reveal(AppView::azure_said);
    let age = super::state::age_said(app.store.azure.read_at, today);
    assert(held(age) == age);
}

/// A text as it stands.
pub open spec fn held(text: Seq<char>) -> Seq<char> {
    text
}

/// Of a scope the status bar tells what its kind was refused with, or how many
/// rows of it there are.
pub proof fn law_the_status_bar_tells_of_the_kind_shown(
    app: AppView,
    scope: Seq<char>,
    data: ScopeData,
    spinner: Seq<char>,
    today: Timestamp,
)
    ensures
        data.pods.error is Some && !data.reading ==> app.scope_said(
            scope,
            data,
            Kind::Pods,
            spinner,
            today,
        ) == ("! "@ + scope + " "@ + "pods"@ + ": "@ + data.pods.error->0@, Tone::Wrong),
        data.events.error is Some && !data.reading ==> app.scope_said(
            scope,
            data,
            Kind::Events,
            spinner,
            today,
        ) == ("! "@ + scope + " "@ + "events"@ + ": "@ + data.events.error->0@, Tone::Wrong),
        data.pods.error is None && !data.reading ==> app.scope_said(
            scope,
            data,
            Kind::Pods,
            spinner,
            today,
        ) == (
            "● "@ + decimal(data.pods.rows@.len()) + " "@ + "pods"@ + " · "@
                + super::state::age_said(data.pods.read_at, today),
            Tone::Quiet,
        ),
        data.secrets.error is None && !data.reading ==> app.scope_said(
            scope,
            data,
            Kind::Secrets,
            spinner,
            today,
        ) == (
            "● "@ + decimal(data.secrets.rows@.len()) + " "@ + "secrets"@ + " · "@
                + super::state::age_said(data.secrets.read_at, today),
            Tone::Quiet,
        ),
        data.configmaps.error is None && !data.reading ==> app.scope_said(
            scope,
            data,
            Kind::ConfigMaps,
            spinner,
            today,
        ) == (
            "● "@ + decimal(data.configmaps.rows@.len()) + " "@ + "configmaps"@ + " · "@
                + super::state::age_said(data.configmaps.read_at, today),
            Tone::Quiet,
        ),
{
    reveal(AppView::scope_said);
}

/// A pod's owner is told by its kind and its name, with how many are ready of
/// how many are wanted once that is known.
pub proof fn law_an_owner_is_told_with_its_replicas(pod: Pod, count: Replicas)
    ensures
        pod.owner is None ==> owner_said(pod, Some(count)) is None && owner_said(pod, None) is None,
        pod.owner is Some ==> {
            let owner = pod.owner->0;
            &&& owner_said(pod, Some(count)) is Some
            &&& owner_said(pod, Some(count))->0 =~= owner.0@ + "/"@ + owner.1@ + " · "@ + decimal(
                count.ready as nat,
            ) + "/"@ + decimal(count.desired as nat) + " ready"@
            &&& owner_said(pod, None) is Some
            &&& owner_said(pod, None)->0 =~= owner.0@ + "/"@ + owner.1@
        },
        replicas_line(count) == "now "@ + decimal(count.desired as nat) + " desired · "@ + decimal(
            count.ready as nat,
        ) + " ready"@,
{
    reveal_strlit("");
}

/// The pane shows the lines of what it is open on: the log's own, or the text
/// that came back for the pod under the cursor, and no other's.
pub proof fn law_the_pane_shows_the_rows_own_text(screen: ScopeView, data: ScopeData, pod: Pod)
    requires
        on_pod(screen, data, pod),
    ensures
        ({
            let object = kube::ObjectView {
                kind: "pod"@,
                namespace: pod.key.namespace@,
                name: pod.key.name@,
            };
            &&& screen.pane.text == PaneText::Log ==> screen.pane_lines(data) == screen.log.lines
            &&& screen.pane.text == PaneText::Value ==> screen.pane_lines(data)
                == screen.pane.value
            &&& screen.pane.text == PaneText::Describe && screen.texts.get(
                TextKind::Describe,
                object,
            ) is Some && screen.texts.get(TextKind::Describe, object)->0 is Ok
                ==> screen.pane_lines(data) == screen.texts.get(
                TextKind::Describe,
                object,
            )->0->Ok_0
            &&& screen.pane.text == PaneText::Yaml && screen.texts.get(TextKind::Yaml, object)
                is Some && screen.texts.get(TextKind::Yaml, object)->0 is Ok ==> screen.pane_lines(
                data,
            ) == screen.texts.get(TextKind::Yaml, object)->0->Ok_0
        }),
{
    reveal(ListsView::object);
}

/// Each kind has its own list, and a list that is put back is put back in its
/// own place.
pub proof fn law_each_kind_has_its_own_list(lists: ListsView, kind: Kind, list: super::list::ListView)
    ensures
        lists.of(Kind::Pods) == lists.pods,
        lists.of(Kind::Events) == lists.events,
        lists.of(Kind::ConfigMaps) == lists.configmaps,
        lists.of(Kind::Secrets) == lists.secrets,
        lists.with(kind, list).of(kind) == list,
        forall|other: Kind| other != kind ==> #[trigger] lists.with(kind, list).of(other) == lists.of(
            other,
        ),
{
}

proof fn lemma_text_place(held: Seq<TextView>, kind: TextKind, object: kube::ObjectView)
    ensures
        0 <= text_at(held, kind, object) <= held.len(),
        text_at(held, kind, object) < held.len() ==> held[text_at(held, kind, object)].kind == kind
            && held[text_at(held, kind, object)].object == object,
        forall|k: int|
            0 <= k < text_at(held, kind, object) ==> !((#[trigger] held[k]).kind == kind
                && held[k].object == object),
    decreases held.len(),
{
    if held.len() > 0 && !(held[0].kind == kind && held[0].object == object) {
        lemma_text_place(held.skip(1), kind, object);
        assert forall|k: int| 0 <= k < text_at(held, kind, object) implies !((
        #[trigger] held[k]).kind == kind && held[k].object == object) by {
            if k > 0 {
                assert(held.skip(1)[k - 1] == held[k]);
            }
        }
    }
}

proof fn lemma_text_found(held: Seq<TextView>, kind: TextKind, object: kube::ObjectView, at: int)
    requires
        0 <= at <= held.len(),
        at < held.len() ==> held[at].kind == kind && held[at].object == object,
        forall|k: int|
            0 <= k < at ==> !((#[trigger] held[k]).kind == kind && held[k].object == object),
    ensures
        text_at(held, kind, object) == at,
    decreases at,
{
    if at > 0 {
        assert(!(held[0].kind == kind && held[0].object == object));
        let rest = held.skip(1);
        assert forall|k: int| 0 <= k < at - 1 implies !((#[trigger] rest[k]).kind == kind
            && rest[k].object == object) by {
            assert(rest[k] == held[k + 1]);
        }
        lemma_text_found(rest, kind, object, at - 1);
    }
}

/// A text that comes back is on file for what it was asked about, and every
/// other is as it was.
pub proof fn law_a_text_is_kept_for_its_own_object(
    texts: TextsView,
    kind: TextKind,
    object: kube::ObjectView,
    text: Result<Seq<Seq<char>>, Seq<char>>,
    other_kind: TextKind,
    other: kube::ObjectView,
)
    ensures
        texts.with(kind, object, text).get(kind, object) == Some(text),
        other_kind != kind || other != object ==> texts.with(kind, object, text).get(
            other_kind,
            other,
        ) == texts.get(other_kind, other),
{
    let before = texts.held;
    let after = texts.with(kind, object, text).held;
    lemma_text_place(before, kind, object);
    let at = text_at(before, kind, object);
    assert(after[at] == (TextView { kind, object, text }));
    assert forall|k: int| 0 <= k < at implies !((#[trigger] after[k]).kind == kind
        && after[k].object == object) by {
        assert(after[k] == before[k]);
    }
    lemma_text_found(after, kind, object, at);
    if other_kind != kind || other != object {
        lemma_text_place(before, other_kind, other);
        let was = text_at(before, other_kind, other);
        if was < before.len() {
            assert(after[was] == before[was]);
            assert forall|k: int| 0 <= k < was implies !((#[trigger] after[k]).kind == other_kind
                && after[k].object == other) by {
                if k != at {
                    assert(after[k] == before[k]);
                }
            }
            lemma_text_found(after, other_kind, other, was);
        } else {
            assert forall|k: int| 0 <= k < after.len() implies !((#[trigger] after[k]).kind
                == other_kind && after[k].object == other) by {
                if k != at {
                    assert(after[k] == before[k]);
                }
            }
            lemma_text_found(after, other_kind, other, after.len() as int);
        }
    }
}

} // verus!
