//! What each key does, said of the row under the cursor: what it asks for, what
//! it copies, what it opens and where it moves.

use vstd::prelude::*;

use super::cursor::ListCursor;
use super::list::ListView;
use super::pane::PaneText;
use super::registries::{LevelView, RegistriesView};
use super::scope::{ModalView, ScopeView};
use super::screen::{ActionView, Target};
use super::secrets::SecretsView;
use super::shell::{Focus, Level, ShellView};
use crate::azure::{Registry, Repository, SecretRow, Tag, Vault};
use crate::columns::ColumnId;
use crate::input::{InputView, KeyCode, KeyEvent};
use crate::kube::{self, ConfigMap, Kind, Pod, PodKeyView, SecretMeta, TextKind};
use crate::plain::{digits_of, law_digits_spell_their_number};
use crate::store::{AzureStore, ScopeData};
use crate::text::trimmed;
use crate::worker;

verus! {

// ---------------------------------------------------------------------------
// Cursors
// ---------------------------------------------------------------------------

/// A cursor that moves goes as many rows as it is told, and stops at either
/// end of the list.
pub proof fn law_a_cursor_goes_as_far_as_it_is_told(cursor: ListCursor, delta: int, count: usize)
    requires
        count > 0,
    ensures
        0 <= cursor.index + delta < count ==> cursor.moved(delta, count).index == cursor.index
            + delta,
        cursor.index + delta < 0 ==> cursor.moved(delta, count).index == 0,
        cursor.index + delta >= count ==> cursor.moved(delta, count).index == count - 1,
        forall|at: usize| #[trigger] cursor.focused(at).index == at,
        cursor.index < count ==> cursor.clamped(count).index == cursor.index,
        cursor.index >= count ==> cursor.clamped(count).index == count - 1,
{
}

// ---------------------------------------------------------------------------
// Vault secrets
// ---------------------------------------------------------------------------

/// Whether the cursor is on a row: the one at its place among those shown.
pub open spec fn on_secret(screen: SecretsView, store: AzureStore, row: SecretRow) -> bool {
    let shown = screen.rows.visible;
    &&& screen.cursor.index < shown.len()
    &&& shown[screen.cursor.index as int] < store.secrets@.len()
    &&& row == store.secrets@[shown[screen.cursor.index as int] as int]
}

/// On a secret, `v` and `Enter` ask for that secret's value, or hide it where
/// it shows; `y` copies the value that shows, and asks for it where none does;
/// `Y` copies the secret's name; `o` opens its vault.
pub proof fn law_a_secrets_keys_act_on_the_row(
    screen: SecretsView,
    shell: ShellView,
    store: AzureStore,
    row: SecretRow,
    key: KeyEvent,
)
    requires
        on_secret(screen, store, row),
    ensures
        ({
            let (then, said, action) = screen.pressed(shell, store, key);
            let shows = screen.revealed matches Some(held) && held.vault == row.vault@ && held.name
                == row.name@;
            let asks = ActionView::Azure(
                worker::RequestView::Value { vault: row.vault@, name: row.name@, version: None },
            );
            &&& key.code == KeyCode::Enter || key.code == KeyCode::Char('v') ==> {
                &&& !shows ==> action == asks && then.reading is Some
                &&& !shows ==> then.reading->0.vault == row.vault@
                &&& !shows ==> then.reading->0.name == row.name@
                &&& !shows ==> !then.reading->0.copy
                &&& shows ==> action is Nothing && then.revealed is None
            }
            &&& key.code == KeyCode::Char('y') ==> {
                &&& !shows ==> action == asks && then.reading is Some
                &&& !shows ==> then.reading->0.vault == row.vault@
                &&& !shows ==> then.reading->0.name == row.name@
                &&& !shows ==> then.reading->0.copy
                &&& shows ==> action is Copy && action->Copy_text == screen.revealed->0.value
                &&& then.revealed == screen.revealed
            }
            &&& key.code == KeyCode::Char('Y') ==> action is Copy && action->Copy_text == row.name@
                && then == screen
            &&& key.code == KeyCode::Char('o') ==> {
                &&& then == screen
                &&& forall|vault: Vault|
                    store.vault_named(row.vault@) == Some(vault) ==> action == ActionView::OpenUrl(
                        "https://portal.azure.com/#@/resource"@ + #[trigger] vault.id@
                            + "/secrets"@,
                    )
                &&& store.vault_named(row.vault@) is None ==> action is Nothing
            }
        }),
{
}

/// In the table, `j` and `k` move one row, `Home` and `End` go to the ends, and
/// `S` turns the sort; a click on a row puts the cursor there, and one on a
/// header sorts by its column.
pub proof fn law_a_secrets_table_moves_as_it_is_told(
    screen: SecretsView,
    shell: ShellView,
    store: AzureStore,
    key: KeyEvent,
    index: usize,
    column: ColumnId,
)
    requires
        shell.focus == Focus::Table,
        screen.cursor.index < screen.rows.visible.len() <= usize::MAX,
    ensures
        ({
            let (then, said, action) = screen.pressed(shell, store, key);
            let (at, count) = (screen.cursor.index, screen.rows.visible.len());
            &&& key.code == KeyCode::Char('j') || key.code == KeyCode::Down ==> then.cursor.index
                == if at + 1 < count {
                at + 1
            } else {
                count - 1
            }
            &&& key.code == KeyCode::Char('k') || key.code == KeyCode::Up ==> then.cursor.index
                == if at > 0 {
                at - 1
            } else {
                0
            }
            &&& key.code == KeyCode::Home ==> then.cursor.index == 0
            &&& key.code == KeyCode::End && count <= isize::MAX ==> then.cursor.index == count - 1
            &&& key.code == KeyCode::Char('S') ==> then.descending == !screen.descending
                && then.sort == screen.sort && then.cursor == screen.cursor
        }),
        index < screen.rows.visible.len() ==> screen.clicked(Target::Row(index)).cursor.index
            == index,
        screen.sort != column ==> screen.clicked(Target::Header(column)).sort == column
            && !screen.clicked(Target::Header(column)).descending,
        screen.sort == column && !screen.descending ==> screen.clicked(
            Target::Header(column),
        ).sort == column && screen.clicked(Target::Header(column)).descending,
{
    let count = screen.rows.visible.len() as usize;
    law_a_cursor_goes_as_far_as_it_is_told(screen.cursor, 1, count);
    law_a_cursor_goes_as_far_as_it_is_told(screen.cursor, -1, count);
    law_a_cursor_goes_as_far_as_it_is_told(screen.cursor, isize::MAX as int, count);
}

/// A value that comes back is shown, or copied, only where it was asked for;
/// what is shown is that value, under its own vault, name and version.
pub proof fn law_an_answer_is_shown_as_it_came(
    screen: SecretsView,
    shell: ShellView,
    store: AzureStore,
    row: SecretRow,
    value: Seq<char>,
    version: Seq<char>,
    message: Seq<char>,
    now: u64,
)
    requires
        on_secret(screen, store, row),
        screen.reading is Some,
        screen.reading->0.vault == row.vault@,
        screen.reading->0.name == row.name@,
    ensures
        ({
            let (then, said, action) = screen.answered(
                shell,
                store,
                row.vault@,
                row.name@,
                Ok((value, version)),
                now,
            );
            &&& then.reading is None
            &&& !screen.reading->0.copy ==> {
                &&& then.revealed is Some
                &&& then.revealed->0.value == value
                &&& then.revealed->0.version == version
                &&& then.revealed->0.vault == row.vault@
                &&& then.revealed->0.name == row.name@
                &&& then.revealed->0.at == now
                &&& action is Nothing
            }
            &&& screen.reading->0.copy ==> action is Copy && action->Copy_text == value
                && then.revealed == screen.revealed
        }),
        ({
            let (then, said, action) = screen.answered(
                shell,
                store,
                row.vault@,
                row.name@,
                Err(message),
                now,
            );
            &&& then.refusal == Some(message)
            &&& then.reading is None
            &&& action is Nothing
        }),
{
}

// ---------------------------------------------------------------------------
// Registries
// ---------------------------------------------------------------------------

/// Whether the cursor is on a repository.
pub open spec fn on_repository(screen: RegistriesView, store: AzureStore, row: Repository) -> bool {
    let shown = screen.rows.visible;
    let at = screen.repositories.cursor.index;
    &&& screen.level is Repositories
    &&& at < shown.len()
    &&& shown[at as int] < store.repositories@.len()
    &&& row == store.repositories@[shown[at as int] as int]
}

/// On a repository, `Enter` and `l` open it and ask for its tags; `y` and `Y`
/// copy what names it on its registry; `o` opens the registry.
pub proof fn law_a_repositorys_keys_act_on_the_row(
    screen: RegistriesView,
    shell: ShellView,
    store: AzureStore,
    row: Repository,
    registry: Registry,
    code: KeyCode,
)
    requires
        on_repository(screen, store, row),
        store.registry_named(row.registry@) == Some(registry),
    ensures
        ({
            let (then, said, action) = screen.acted(shell, store, code);
            &&& code == KeyCode::Enter || code == KeyCode::Char('l') ==> {
                &&& then.level == (LevelView::Tags { registry: row.registry@, repo: row.name@ })
                &&& action == ActionView::Azure(
                    worker::RequestView::Tags { registry: row.registry@, repo: row.name@ },
                )
            }
            &&& code == KeyCode::Char('y') || code == KeyCode::Char('Y') ==> {
                &&& action is Copy
                &&& action->Copy_text == registry.login_server@ + "/"@ + row.name@
                &&& then == screen
            }
            &&& code == KeyCode::Char('o') ==> action == ActionView::OpenUrl(
                "https://portal.azure.com/#@/resource"@ + registry.id@,
            )
        }),
{
}

/// Whether the cursor is on a tag of the repository that is open.
pub open spec fn on_tag(
    screen: RegistriesView,
    store: AzureStore,
    registry: Seq<char>,
    repo: Seq<char>,
    tags: Vec<Tag>,
    tag: Tag,
) -> bool {
    let at = screen.tags.cursor.index;
    &&& screen.level == (LevelView::Tags { registry, repo })
    &&& store.tags_read(registry, repo) == Some(Ok::<Vec<Tag>, String>(tags))
    &&& at < screen.tag_visible.len()
    &&& screen.tag_visible[at as int] < tags@.len()
    &&& tag == tags@[screen.tag_visible[at as int] as int]
}

/// On a tag, `y` copies what pulls it by its name and `Y` what pulls it by its
/// digest; `o` opens the registry; `h`, `Esc` and `Backspace` go back.
pub proof fn law_a_tags_keys_act_on_the_row(
    screen: RegistriesView,
    shell: ShellView,
    store: AzureStore,
    registry: Seq<char>,
    repo: Seq<char>,
    tags: Vec<Tag>,
    tag: Tag,
    held: Registry,
    code: KeyCode,
)
    requires
        on_tag(screen, store, registry, repo, tags, tag),
        store.registry_named(registry) == Some(held),
    ensures
        ({
            let (then, said, action) = screen.acted(shell, store, code);
            &&& code == KeyCode::Char('y') ==> action is Copy && action->Copy_text
                == held.login_server@ + "/"@ + repo + ":"@ + tag.name@
            &&& code == KeyCode::Char('Y') ==> action is Copy && action->Copy_text
                == held.login_server@ + "/"@ + repo + "@"@ + tag.digest@
            &&& code == KeyCode::Char('o') ==> action == ActionView::OpenUrl(
                "https://portal.azure.com/#@/resource"@ + held.id@,
            )
            &&& code == KeyCode::Esc || code == KeyCode::Backspace || code == KeyCode::Char('h')
                ==> then.level is Repositories
        }),
{
}

/// A row that the cursor has rested on is asked about: a repository for its
/// tags, a tag for the manifest of its digest.
pub proof fn law_a_rested_row_is_asked_about(
    screen: RegistriesView,
    store: AzureStore,
    row: Repository,
    registry: Seq<char>,
    repo: Seq<char>,
    tags: Vec<Tag>,
    tag: Tag,
    now: u64,
)
    ensures
        on_repository(screen, store, row) && screen.ticked(store, now).1 is Some ==> screen.ticked(
            store,
            now,
        ).1 == Some(worker::RequestView::Tags { registry: row.registry@, repo: row.name@ }),
        on_tag(screen, store, registry, repo, tags, tag) && screen.ticked(store, now).1 is Some
            ==> screen.ticked(store, now).1 == Some(
            worker::RequestView::Manifest { registry, repo, digest: tag.digest@ },
        ),
{
}

/// In the tables of the registries, `j` and `k` move one row of the table on
/// screen, and of it alone; `R` turns its sort.
pub proof fn law_a_registrys_tables_move_as_they_are_told(
    screen: RegistriesView,
    shell: ShellView,
    store: AzureStore,
    key: KeyEvent,
)
    requires
        shell.focus == Focus::Table,
        screen.count() <= usize::MAX,
        screen.table().cursor.index < screen.count(),
    ensures
        ({
            let (then, said, action) = screen.pressed(shell, store, key);
            let (at, count) = (screen.table().cursor.index, screen.count());
            let moved = key.code == KeyCode::Char('j') || key.code == KeyCode::Down || key.code
                == KeyCode::Char('k') || key.code == KeyCode::Up || key.code == KeyCode::Home;
            &&& screen.level is Repositories ==> screen.table() == screen.repositories
            &&& screen.level is Tags ==> screen.table() == screen.tags
            &&& moved ==> then.level == screen.level
            &&& moved && screen.level is Repositories ==> then.tags == screen.tags
            &&& moved && screen.level is Tags ==> then.repositories == screen.repositories
            &&& key.code == KeyCode::Char('j') || key.code == KeyCode::Down
                ==> then.table().cursor.index == if at + 1 < count {
                at + 1
            } else {
                count - 1
            }
            &&& key.code == KeyCode::Char('k') || key.code == KeyCode::Up
                ==> then.table().cursor.index == if at > 0 {
                at - 1
            } else {
                0
            }
            &&& key.code == KeyCode::Home ==> then.table().cursor.index == 0
            &&& key.code == KeyCode::Char('R') ==> then.table().descending
                == !screen.table().descending && then.table().sort == screen.table().sort
        }),
{
    let count = screen.count() as usize;
    law_a_cursor_goes_as_far_as_it_is_told(screen.table().cursor, 1, count);
    law_a_cursor_goes_as_far_as_it_is_told(screen.table().cursor, -1, count);
}

// ---------------------------------------------------------------------------
// Clusters
// ---------------------------------------------------------------------------

/// Whether a list's cursor is on one of some rows.
pub open spec fn on_row<T>(list: ListView, rows: Seq<T>, row: T) -> bool {
    let shown = list.rows.visible;
    &&& list.cursor.index < shown.len()
    &&& shown[list.cursor.index as int] < rows.len()
    &&& row == rows[shown[list.cursor.index as int] as int]
}

/// Whether the pods show, with the cursor on one of them.
pub open spec fn on_pod(screen: ScopeView, data: ScopeData, pod: Pod) -> bool {
    screen.kind == Kind::Pods && on_row(screen.lists.pods, data.pods.rows@, pod)
}

/// What describe and yaml are asked for is the object under the cursor, in its
/// own scope.
pub proof fn law_a_text_is_asked_for_of_the_row(
    screen: ScopeView,
    data: ScopeData,
    pod: Pod,
    map: ConfigMap,
    secret: SecretMeta,
    scope: usize,
    kind: TextKind,
)
    ensures
        on_pod(screen, data, pod) ==> ({
            let asked = screen.with_text_shown(scope, kind, data).1;
            let object = kube::ObjectView {
                kind: "pod"@,
                namespace: pod.key.namespace@,
                name: pod.key.name@,
            };
            &&& screen.selected_object(data) == Some(object)
            &&& asked is Some && kind == TextKind::Describe ==> asked->0 == (
            kube::RequestView::Describe { scope, object })
            &&& asked is Some && kind == TextKind::Yaml ==> asked->0 == (kube::RequestView::Yaml {
                scope,
                object,
            })
        }),
        screen.kind == Kind::ConfigMaps && on_row(
            screen.lists.configmaps,
            data.configmaps.rows@,
            map,
        ) ==> screen.selected_object(data) == Some(
            kube::ObjectView {
                kind: "configmap"@,
                namespace: map.namespace@,
                name: map.name@,
            },
        ),
        screen.kind == Kind::Secrets && on_row(screen.lists.secrets, data.secrets.rows@, secret)
            ==> screen.selected_object(data) == Some(
            kube::ObjectView {
                kind: "secret"@,
                namespace: secret.namespace@,
                name: secret.name@,
            },
        ),
{
    reveal(super::lists::ListsView::object);
}

/// `x` asks about the pod under the cursor, and the yes deletes that pod, in
/// its own scope; a pod that nothing would put back is left alone.
pub proof fn law_a_restart_is_of_the_pod_under_the_cursor(
    screen: ScopeView,
    shell: ShellView,
    data: ScopeData,
    pod: Pod,
    scope: usize,
)
    requires
        on_pod(screen, data, pod),
        screen.modal is None,
    ensures
        ({
            let (asked, said) = screen.restart_asked(shell, data);
            let (then, told, request) = asked.confirmed(said, scope);
            &&& pod.owner is None ==> asked.modal is None && request is None
                && said.notification is Some && (said.notification->0).2 == Level::Error
            &&& pod.owner is Some ==> {
                &&& asked.modal is Some
                &&& then.modal is None
                &&& request == Some(
                    kube::RequestView::Delete {
                        scope,
                        key: PodKeyView {
                            cluster: pod.key.cluster@,
                            namespace: pod.key.namespace@,
                            name: pod.key.name@,
                        },
                    },
                )
            }
        }),
{
}

/// `X` asks about what put the pod under the cursor there, where that can be
/// rolled, and the yes restarts its rollout.
pub proof fn law_a_rollout_is_of_the_pods_owner(
    screen: ScopeView,
    shell: ShellView,
    data: ScopeData,
    pod: Pod,
    scope: usize,
)
    requires
        on_pod(screen, data, pod),
        screen.modal is None,
    ensures
        ({
            let (asked, said) = screen.rollout_asked(shell, data);
            let (then, told, request) = asked.confirmed(said, scope);
            &&& pod.owner is None ==> request is None
            &&& request is Some ==> {
                &&& pod.owner is Some
                &&& request->0 is RolloutRestart
                &&& request->0->RolloutRestart_scope == scope
                &&& request->0->RolloutRestart_object.namespace == pod.key.namespace@
                &&& request->0->RolloutRestart_object.name == (pod.owner->0).1@
                &&& request->0->RolloutRestart_object.kind == crate::text::lower((pod.owner->0).0@)
            }
            &&& pod.owner is Some ==> {
                let kind = crate::text::lower((pod.owner->0).0@);
                request is Some <==> kind == "deployment"@ || kind == "statefulset"@ || kind
                    == "daemonset"@
            }
        }),
{
}

/// `=` asks how many there should be of what put the pod under the cursor
/// there, where that can be scaled; a yes asks for the number that is typed.
pub proof fn law_a_scale_is_of_the_pods_owner(
    screen: ScopeView,
    shell: ShellView,
    data: ScopeData,
    pod: Pod,
    scope: usize,
)
    requires
        on_pod(screen, data, pod),
        screen.modal is None,
    ensures
        ({
            let (asked, said, first) = screen.scale_asked(shell, scope, data);
            &&& pod.owner is None ==> asked.modal is None
            &&& asked.modal is Some ==> {
                &&& pod.owner is Some
                &&& asked.modal->0 is Scale
                &&& asked.modal->0->Scale_object.namespace == pod.key.namespace@
                &&& asked.modal->0->Scale_object.name == (pod.owner->0).1@
                &&& asked.modal->0->Scale_object.kind == crate::text::lower((pod.owner->0).0@)
                &&& first is Some ==> first->0 == (kube::RequestView::Owner {
                    scope,
                    object: asked.modal->0->Scale_object,
                })
            }
            &&& pod.owner is Some ==> {
                let kind = crate::text::lower((pod.owner->0).0@);
                asked.modal is Some <==> kind == "deployment"@ || kind == "statefulset"@ || kind
                    == "replicaset"@
            }
        }),
{
}

/// A yes to the scale question asks for the number whose digits are typed, of
/// the object it is about; what is no number asks for nothing.
pub proof fn law_a_scale_is_to_the_number_typed(
    screen: ScopeView,
    shell: ShellView,
    scope: usize,
    object: kube::ObjectView,
    input: InputView,
    current: Option<kube::Replicas>,
    n: u32,
)
    requires
        screen.modal == Some(ModalView::Scale { object, input, current }),
        trimmed(input.text).len() > 0,
        digits_of(trimmed(input.text), n as nat),
    ensures
        screen.confirmed(shell, scope).2 == Some(
            kube::RequestView::Scale { scope, object, replicas: n },
        ),
        screen.confirmed(shell, scope).0.modal is None,
{
    law_digits_spell_their_number(trimmed(input.text), n as nat);
}

/// `b` runs a shell in the pod under the cursor, in the cluster of the tab.
pub proof fn law_a_shell_is_run_in_the_pod_under_the_cursor(
    screen: ScopeView,
    data: ScopeData,
    pod: Pod,
    context: Seq<char>,
)
    requires
        on_pod(screen, data, pod),
    ensures
        screen.shell_in(context, data) is Some,
        screen.shell_in(context, data)->0 is Exec,
        screen.shell_in(context, data)->0->Exec_context == context,
        screen.shell_in(context, data)->0->Exec_namespace == pod.key.namespace@,
        screen.shell_in(context, data)->0->Exec_pod == pod.key.name@,
        screen.log.target is None ==> screen.shell_in(context, data)->0->Exec_container is None,
        screen.log.target is Some && screen.log.target->0.key == (PodKeyView {
            cluster: pod.key.cluster@,
            namespace: pod.key.namespace@,
            name: pod.key.name@,
        }) ==> screen.shell_in(context, data)->0->Exec_container
            == screen.log.target->0.container,
{
}

/// The log that is followed is that of the pod under the cursor, in its own
/// scope, of the run that was asked for; of a container only where the pod has
/// one of that name.
pub proof fn law_the_log_followed_is_the_pods(
    screen: ScopeView,
    data: ScopeData,
    pod: Pod,
    scope: usize,
)
    requires
        on_pod(screen, data, pod),
    ensures
        screen.pane.open && screen.pane.text == PaneText::Log ==> {
            let target = screen.desired_log(scope, data);
            &&& target is Some
            &&& target->0.scope == scope
            &&& target->0.key.namespace == pod.key.namespace@
            &&& target->0.key.name == pod.key.name@
            &&& target->0.previous == screen.log.previous
            &&& target->0.container is Some ==> exists|i: int|
                0 <= i < pod.containers@.len() && (#[trigger] pod.containers@[i]).name@
                    == target->0.container->0
        },
        !screen.pane.open || screen.pane.text != PaneText::Log ==> screen.desired_log(scope, data)
            is None,
{
}

/// The value that is asked for, or copied, is the one under the key the details
/// cursor is on, of the secret or the configmap under the cursor.
pub proof fn law_a_keys_value_is_the_one_under_the_cursor(
    screen: ScopeView,
    shell: ShellView,
    data: ScopeData,
    secret: SecretMeta,
    scope: usize,
)
    requires
        screen.kind == Kind::Secrets,
        on_row(screen.lists.secrets, data.secrets.rows@, secret),
        screen.key_cursor < secret.keys@.len(),
    ensures
        ({
            let key = secret.keys@[screen.key_cursor as int].0@;
            let object = kube::ObjectView {
                kind: "secret"@,
                namespace: secret.namespace@,
                name: secret.name@,
            };
            let shows = screen.value.revealed is Some && screen.value.revealed->0.object == object
                && screen.value.revealed->0.key == key;
            &&& screen.selected_key(data) == Some(key)
            &&& !shows ==> screen.value_shown(scope, data).1 == Some(
                kube::RequestView::SecretValue { scope, object, key, copy: false },
            )
            &&& shows ==> screen.value_shown(scope, data).1 is None && screen.value_shown(
                scope,
                data,
            ).0.value.revealed is None
            &&& !shows ==> screen.value_copied(shell, scope, data).2 == ActionView::Kube(
                kube::RequestView::SecretValue { scope, object, key, copy: true },
            )
            &&& shows ==> screen.value_copied(shell, scope, data).2 is Copy && screen.value_copied(
                shell,
                scope,
                data,
            ).2->Copy_text == screen.value.revealed->0.value
        }),
{
    reveal(super::lists::ListsView::object);
    reveal(super::lists::ListsView::keys);
}

/// So it is with a configmap, whose values are at hand.
pub proof fn law_a_configmaps_value_is_copied(
    screen: ScopeView,
    shell: ShellView,
    data: ScopeData,
    map: ConfigMap,
    scope: usize,
)
    requires
        screen.kind == Kind::ConfigMaps,
        on_row(screen.lists.configmaps, data.configmaps.rows@, map),
        screen.key_cursor < map.data@.len(),
        forall|i: int, j: int|
            0 <= i < j < map.data@.len() ==> (#[trigger] map.data@[i]).0@ != (
            #[trigger] map.data@[j]).0@,
    ensures
        ({
            let held = map.data@[screen.key_cursor as int];
            let (then, said, action) = screen.value_copied(shell, scope, data);
            &&& action is Copy
            &&& action->Copy_text == held.1@
            &&& then == screen
            &&& screen.value_lines(data) == crate::text::lines_of(held.1@)
        }),
{
    reveal(super::lists::ListsView::object);
    reveal(super::lists::ListsView::keys);
    lemma_value_under(map.data@, screen.key_cursor as int);
}

proof fn lemma_value_under(data: Seq<(String, String)>, at: int)
    requires
        0 <= at < data.len(),
        forall|k: int| 0 <= k < at ==> (#[trigger] data[k]).0@ != data[at].0@,
    ensures
        super::scope::value_under(data, data[at].0@) == Some(data[at].1@),
    decreases at,
{
    if at > 0 {
        assert(data[0].0@ != data[at].0@);
        let rest = data.skip(1);
        assert forall|k: int| 0 <= k < at - 1 implies (#[trigger] rest[k]).0@ != rest[at
            - 1].0@ by {
            assert(rest[k] == data[k + 1]);
        }
        lemma_value_under(rest, at - 1);
    }
}

/// The line that does by hand what the pane shows names the tab's cluster, the
/// row's namespace and the row.
pub proof fn law_the_line_by_hand_names_the_row(
    screen: ScopeView,
    data: ScopeData,
    pod: Pod,
    context: Seq<char>,
)
    requires
        on_pod(screen, data, pod),
    ensures
        ({
            let head = "kubectl --context "@ + context + " -n "@ + pod.key.namespace@;
            let line = screen.kubectl(context, data);
            &&& line is Some
            &&& screen.pane.open && screen.pane.text == PaneText::Describe ==> line->0 =~= head
                + " describe pod/"@ + pod.key.name@
            &&& screen.pane.open && screen.pane.text == PaneText::Yaml ==> line->0 =~= head
                + " get pod/"@ + pod.key.name@ + " -o yaml"@
            &&& !screen.pane.open && screen.log.target is None && !screen.log.previous ==> line->0
                =~= head + " logs -f "@ + pod.key.name@
            &&& !screen.pane.open && screen.log.target is None && screen.log.previous ==> line->0
                =~= head + " logs -f "@ + pod.key.name@ + " -p"@
        }),
{
    reveal(super::lists::ListsView::object);
    reveal_strlit(" describe pod/");
    reveal_strlit(" describe ");
    reveal_strlit(" get pod/");
    reveal_strlit(" get ");
    reveal_strlit("pod");
    reveal_strlit("/");
    assert(" describe "@ + "pod"@ + "/"@ =~= " describe pod/"@);
    assert(" get "@ + "pod"@ + "/"@ =~= " get pod/"@);
}

/// A list of a cluster's rows moves as it is told, and a scope's other lists
/// stay where they were.
pub proof fn law_a_clusters_list_moves_as_it_is_told(
    screen: ScopeView,
    data: ScopeData,
    key: KeyEvent,
    other: Kind,
)
    requires
        screen.list().rows.visible.len() <= isize::MAX,
        screen.list().cursor.index < screen.list().rows.visible.len(),
    ensures
        ({
            let then = screen.pressed(Focus::Table, data, key);
            let (at, count) = (screen.list().cursor.index, screen.list().rows.visible.len());
            &&& key.code == KeyCode::Char('j') || key.code == KeyCode::Down
                ==> then.list().cursor.index == if at + 1 < count {
                at + 1
            } else {
                count - 1
            }
            &&& key.code == KeyCode::Char('k') || key.code == KeyCode::Up
                ==> then.list().cursor.index == if at > 0 {
                at - 1
            } else {
                0
            }
            &&& key.code == KeyCode::Home ==> then.list().cursor.index == 0
            &&& key.code == KeyCode::End ==> then.list().cursor.index == count - 1
            &&& key.code == KeyCode::Char('R') ==> then.list().descending
                == !screen.list().descending && then.list().sort == screen.list().sort
            &&& then.kind == screen.kind
            &&& other != screen.kind ==> then.lists.of(other) == screen.lists.of(other)
        }),
{
    reveal(ListView::moved);
    let count = screen.list().rows.visible.len() as usize;
    law_a_cursor_goes_as_far_as_it_is_told(screen.list().cursor, 1, count);
    law_a_cursor_goes_as_far_as_it_is_told(screen.list().cursor, -1, count);
    law_a_cursor_goes_as_far_as_it_is_told(screen.list().cursor, isize::MAX as int, count);
    law_a_cursor_goes_as_far_as_it_is_told(screen.list().cursor, isize::MIN as int, count);
}

} // verus!
