use az_tui::app::list::Row;
use az_tui::app::registries::{Level, RegistriesScreen};
use az_tui::app::scope::ScopeScreen;
use az_tui::app::screen::{tabs, AppAction, Button, Tab, Target};
use az_tui::app::secrets::{SecretsScreen, REST};
use az_tui::app::shell::{Focus, Menu, Rect};
use az_tui::app::wording::{kind_label, owner_line, pill};
use az_tui::app::App;
use az_tui::azure::{Inventory, Registry, Repository, Secret, SecretRow, Tag, Vault};
use az_tui::columns::{ColumnConfig, ColumnId};
use az_tui::config::{Scope, ScopeTab};
use az_tui::filter::Env;
use az_tui::input::{KeyCode, KeyEvent, MouseButton, MouseEvent, MouseEventKind};
use az_tui::kube::{
    ConfigMap, Container, Event, K8sEvent, Kind, ObjectRef, Pod, PodKey, Replicas, Request,
    SecretMeta, TextKind,
};
use az_tui::session::{Session, SessionColumn};
use az_tui::store::{AzureStore, Store};
use az_tui::timestamp::Timestamp;

fn ts(raw: &str) -> Timestamp {
    Timestamp::parse(raw).unwrap()
}

fn key(cluster: &str, namespace: &str, name: &str) -> PodKey {
    PodKey {
        cluster: cluster.to_owned(),
        namespace: namespace.to_owned(),
        name: name.to_owned(),
    }
}

fn pod(cluster: &str, namespace: &str, name: &str, status: &str) -> Pod {
    Pod {
        key: key(cluster, namespace, name),
        status: status.to_owned(),
        ready: (1, 1),
        restarts: 0,
        node: "aks-np1".to_owned(),
        ip: "10.0.0.1".to_owned(),
        owner: Some(("Deployment".to_owned(), "orders-api".to_owned())),
        app: Some("orders-api".to_owned()),
        containers: vec![Container {
            name: "api".to_owned(),
            image: "acrprod.azurecr.io/orders-api:1.2.3".to_owned(),
            ready: true,
            restarts: 0,
        }],
        created: Some(ts("2026-09-11T20:00:00Z")),
    }
}

fn crashing(cluster: &str, namespace: &str, name: &str) -> Pod {
    Pod {
        ready: (0, 1),
        restarts: 7,
        ..pod(cluster, namespace, name, "CrashLoopBackOff")
    }
}

fn event(
    name: &str,
    last: &str,
    kind: &str,
    reason: &str,
    object: (&str, &str),
    count: u64,
    message: &str,
) -> K8sEvent {
    K8sEvent {
        namespace: "dev".to_owned(),
        name: name.to_owned(),
        kind: kind.to_owned(),
        reason: reason.to_owned(),
        object: ObjectRef {
            kind: object.0.to_owned(),
            namespace: "dev".to_owned(),
            name: object.1.to_owned(),
        },
        message: message.to_owned(),
        count,
        last: Some(ts(last)),
    }
}

fn configmap(name: &str, data: &[(&str, &str)]) -> ConfigMap {
    ConfigMap {
        namespace: "dev".to_owned(),
        name: name.to_owned(),
        data: data
            .iter()
            .map(|(key, value)| ((*key).to_owned(), (*value).to_owned()))
            .collect(),
        created: None,
    }
}

fn secret_meta(name: &str, kind: &str, keys: &[(&str, u64)]) -> SecretMeta {
    SecretMeta {
        namespace: "dev".to_owned(),
        name: name.to_owned(),
        kind: kind.to_owned(),
        keys: keys
            .iter()
            .map(|(key, bytes)| ((*key).to_owned(), *bytes))
            .collect(),
        created: None,
    }
}

fn today() -> Timestamp {
    ts("2026-09-11T20:00:00Z")
}

// ── What is on file ────────────────────────────────────────────────────

fn secret_row(vault: &str, name: &str) -> SecretRow {
    SecretRow {
        vault: vault.to_owned(),
        name: name.to_owned(),
        enabled: true,
        created: None,
        updated: None,
        expires: None,
        not_before: None,
        content_type: None,
        tags: Vec::new(),
        managed: false,
    }
}

fn secrets_stocked() -> AzureStore {
    let vault = |name: &str| Vault {
        id: format!("/vaults/{name}"),
        name: name.to_owned(),
        resource_group: "rg".into(),
        location: "eastus".into(),
        uri: format!("https://{name}.vault.azure.net/"),
    };
    let mut store = AzureStore::default();
    store.apply(
        az_tui::worker::Event::Inventory(Ok(Inventory {
            vaults: vec![vault("kv-dev"), vault("kv-prod")],
            registries: Vec::new(),
        })),
        today(),
    );
    store.apply(
        az_tui::worker::Event::Secrets {
            vault: "kv-dev".into(),
            result: Ok(vec![
                secret_row("kv-dev", "api-key"),
                secret_row("kv-dev", "db-password"),
            ]),
        },
        today(),
    );
    store.apply(
        az_tui::worker::Event::Secrets {
            vault: "kv-prod".into(),
            result: Ok(vec![secret_row("kv-prod", "db-password")]),
        },
        today(),
    );
    store
}

fn registries_stocked() -> AzureStore {
    let registry = |name: &str| Registry {
        id: format!("/registries/{name}"),
        name: name.to_owned(),
        resource_group: "rg".into(),
        location: "eastus".into(),
        login_server: format!("{name}.azurecr.io"),
    };
    let repository = |name: &str, tags: Option<u64>, updated: Option<&str>| Repository {
        registry: "acrprod".to_owned(),
        name: name.to_owned(),
        tag_count: tags,
        manifest_count: tags,
        created: None,
        updated: updated.map(ts),
    };
    let tag = |name: &str, digest: &str, updated: &str| Tag {
        name: name.to_owned(),
        digest: digest.to_owned(),
        created: Some(ts(updated)),
        updated: Some(ts(updated)),
    };
    let mut store = AzureStore::default();
    store.apply(
        az_tui::worker::Event::Inventory(Ok(Inventory {
            vaults: Vec::new(),
            registries: vec![registry("acrdev"), registry("acrprod")],
        })),
        today(),
    );
    store.apply(
        az_tui::worker::Event::Repositories {
            registry: "acrprod".into(),
            result: Ok(vec![
                repository("payments-api", Some(48), Some("2026-09-11T18:00:00Z")),
                repository("web-frontend", Some(12), Some("2026-09-01T18:00:00Z")),
                repository("notifications", None, None),
            ]),
        },
        today(),
    );
    store.apply(
        az_tui::worker::Event::Tags {
            registry: "acrprod".into(),
            repo: "payments-api".into(),
            result: Ok(vec![
                tag("1.42.0", "sha256:ab12ef0199", "2026-09-11T18:00:00Z"),
                tag("1.41.3", "sha256:9f01aa4288", "2026-09-08T18:00:00Z"),
            ]),
        },
        today(),
    );
    store
}

fn scope_tab(label: &str, cluster: &str, context: &str, namespace: Option<&str>) -> ScopeTab {
    ScopeTab {
        label: label.to_owned(),
        scope: Scope {
            cluster: cluster.to_owned(),
            context: context.to_owned(),
            namespace: namespace.map(str::to_owned),
        },
    }
}

/// The two Azure tabs and nothing else: Secrets at 0, Registries at 1.
fn azure_only() -> App {
    App::new(tabs(Vec::new()), Store::new(0))
}

fn azure_only_with(azure: AzureStore) -> App {
    let mut store = Store::new(0);
    store.azure = azure;
    App::new(tabs(Vec::new()), store)
}

/// Two clusters, four scope tabs, then Secrets at 4 and Registries at 5.
fn two_clusters() -> App {
    let tabs = tabs(vec![
        scope_tab("qa/dev", "qa", "aks-qa", Some("dev")),
        scope_tab("qa/test", "qa", "aks-qa", Some("test")),
        scope_tab("qa/uat", "qa", "aks-qa", Some("uat")),
        scope_tab("prod", "prod", "aks-prod", Some("prod")),
    ]);
    App::new(tabs, Store::new(4))
}

/// The two clusters with pods read into qa/dev and prod, and qa/dev's events,
/// configmaps and secrets besides.
fn stocked() -> App {
    let mut app = two_clusters();
    app.apply_kube(
        Event::Pods {
            scope: 0,
            pods: Ok(vec![
                pod("qa", "dev", "orders-api-7d9f5b-abc12", "Running"),
                crashing("qa", "dev", "orders-api-7d9f5b-def34"),
            ]),
        },
        today(),
    );
    app.apply_kube(
        Event::Pods {
            scope: 3,
            pods: Ok(vec![pod(
                "prod",
                "prod",
                "orders-api-9a1c2d-ghi56",
                "Running",
            )]),
        },
        today(),
    );
    app.apply_kube(
        Event::Events {
            scope: 0,
            events: Ok(vec![
                event(
                    "w1",
                    "2026-09-12T12:00:00Z",
                    "Warning",
                    "BackOff",
                    ("pod", "orders-api-7d9f5b-def34"),
                    9,
                    "Back-off restarting failed container",
                ),
                event(
                    "n1",
                    "2026-09-12T11:00:00Z",
                    "Normal",
                    "Pulled",
                    ("pod", "orders-api-7d9f5b-abc12"),
                    1,
                    "Pulled image",
                ),
            ]),
        },
        today(),
    );
    app.apply_kube(
        Event::ConfigMaps {
            scope: 0,
            configmaps: Ok(vec![configmap("orders-config", &[("LOG_LEVEL", "info")])]),
        },
        today(),
    );
    app.apply_kube(
        Event::Secrets {
            scope: 0,
            secrets: Ok(vec![
                secret_meta("db", "Opaque", &[("password", 7)]),
                secret_meta("tls", "kubernetes.io/tls", &[("tls.crt", 3), ("tls.key", 3)]),
            ]),
        },
        today(),
    );
    app
}

// ── Driving it ─────────────────────────────────────────────────────────

fn press(app: &mut App, code: KeyCode) -> AppAction {
    app.handle_key(KeyEvent::plain(code))
}

/// What the tick says about the follow, the owner reads left aside.
fn follow_tick(app: &mut App) -> Option<Request> {
    app.tick(0, today()).into_iter().find_map(|action| match action {
        AppAction::Kube(request @ (Request::Follow(_) | Request::Unfollow)) => Some(request),
        _ => None,
    })
}

fn click(app: &mut App, column: u16, row: u16) -> AppAction {
    app.handle_mouse(MouseEvent {
        kind: MouseEventKind::Down(MouseButton::Left),
        column,
        row,
    })
}

fn scope(app: &App, tab: usize) -> &ScopeScreen {
    app.screens[tab].scope().expect("a scope tab")
}

fn secrets(app: &App, tab: usize) -> &SecretsScreen {
    app.screens[tab].secrets().expect("the Secrets tab")
}

fn registries(app: &App, tab: usize) -> &RegistriesScreen {
    app.screens[tab].registries().expect("the Registries tab")
}

fn selected_pod_name(app: &App) -> Option<String> {
    scope(app, app.tab)
        .selected_pod(&app.store.scopes[app.tab])
        .map(|pod| pod.key.name.clone())
}

/// One frame: the rows settled, what can be clicked registered where it would
/// be drawn, and everything the frame would say, in no particular place.
fn frame(app: &mut App) -> String {
    app.refilter(today());
    app.shell.begin_frame();
    let mut said: Vec<String> = Vec::new();
    for at in 0..app.tabs.len() {
        said.push(app.tab_label(at, today()));
        app.shell
            .region(Rect::new(at as u16 * 10, 0, 10, 1), Target::Tab(at));
    }
    let tab = app.tab;
    if let Some(kind) = app.kind() {
        said.push(pill(kind_label(kind)));
        app.shell.region(Rect::new(90, 0, 8, 1), Target::KindPill);
        app.shell
            .region(Rect::new(0, 1, 6, 1), Target::Button(Button::Bash));
        app.shell
            .region(Rect::new(10, 1, 6, 1), Target::Button(Button::Logs));
        app.shell.region(Rect::new(0, 4, 40, 1), Target::Row(1));
        let data = &app.store.scopes[tab];
        app.screens[tab].scope_mut().unwrap().sync_value(data);
        let screen = app.screens[tab].scope().unwrap();
        for at in screen.list().visible() {
            said.push(match kind {
                Kind::Pods => data.pods.rows[*at].identity(),
                Kind::Events => data.events.rows[*at].reason.clone(),
                Kind::ConfigMaps => data.configmaps.rows[*at].identity(),
                Kind::Secrets => data.secrets.rows[*at].identity(),
            });
        }
        if let Some(pod) = screen.selected_pod(data) {
            said.extend(owner_line(pod, screen.owner_of(pod)));
        }
        said.extend(screen.key_lines(data));
        said.extend(screen.value_line(data, 0));
        if screen.pane.open {
            let all = screen.pane_text(data);
            said.push(screen.pane_title(data));
            said.push(screen.pane.filter_line(&all));
            said.extend(screen.pane.shown_lines(&all));
        }
        if let Some(modal) = &screen.modal {
            said.extend(modal.lines());
        }
        if screen.modal.is_some() {
            app.shell.region(Rect::new(30, 10, 40, 8), Target::Modal);
            app.shell.region(Rect::new(35, 15, 5, 1), Target::Confirm);
        }
    } else {
        said.push(pill(ColumnId::Env.label()));
        app.shell
            .region(Rect::new(2, 2, 6, 1), Target::Header(ColumnId::Env));
    }
    if let Some((menu, _)) = app.shell.menu {
        said.extend(app.menu_texts(menu));
    }
    match app.shell.menu {
        Some((Menu::Env, _)) => {
            for (at, env) in [None, Some(Env::Dev), Some(Env::Qa), Some(Env::Prod)]
                .into_iter()
                .enumerate()
            {
                app.shell
                    .region(Rect::new(2, 3 + at as u16, 6, 1), Target::EnvOption(env));
            }
        }
        Some((Menu::Kind, _)) => {
            for (at, kind) in [Kind::Pods, Kind::Events, Kind::ConfigMaps, Kind::Secrets]
                .into_iter()
                .enumerate()
            {
                app.shell
                    .region(Rect::new(90, 1 + at as u16, 12, 1), Target::KindOption(kind));
            }
        }
        None => {}
    }
    said.push(app.footer_hint());
    said.push(app.store_state("◐", today()).0);
    if app.shell.help_open {
        said.extend(app.problems());
    }
    said.join("\n")
}

fn columns(held: &[ColumnConfig]) -> Vec<(ColumnId, bool, u16)> {
    held.iter()
        .map(|column| (column.id, column.visible, column.width))
        .collect()
}

// ── The tabs ───────────────────────────────────────────────────────

#[test]
fn a_scope_tabs_index_is_its_kube_scope_and_the_azure_tabs_come_after() {
    let mut app = two_clusters();
    assert_eq!(app.tabs.len(), 6);
    assert_eq!(app.store.scopes.len(), 4);
    assert!(matches!(app.tabs[4], Tab::Secrets));
    assert!(matches!(app.tabs[5], Tab::Registries));
    assert_eq!(
        press(&mut app, KeyCode::Char('4')),
        AppAction::Kube(Request::Showing(3, Kind::Pods))
    );
    assert_eq!(press(&mut app, KeyCode::Char('5')), AppAction::Nothing);
    assert_eq!(app.tab, 4);
    assert_eq!(app.kind(), None);
    assert_eq!(
        press(&mut app, KeyCode::Char('r')),
        AppAction::Azure(az_tui::worker::Request::Refresh)
    );
    app.apply_kube(Event::Pods {
        scope: 3,
        pods: Ok(vec![pod("prod", "prod", "a", "Running")]),
    }, today());
    assert_eq!(app.store.scopes[3].pods.rows.len(), 1);
    assert_eq!(scope(&app, 3).list().cursor.index, 0);
    assert_eq!(
        press(&mut app, KeyCode::Char('6')),
        AppAction::Nothing,
        "Registries asks the kube worker for nothing"
    );
    assert_eq!(press(&mut app, KeyCode::Char('7')), AppAction::Nothing);
    assert_eq!(app.tab, 5, "a number with no tab does nothing");
}

#[test]
fn a_tab_is_reached_by_number_by_bracket_and_by_click_and_the_worker_is_told() {
    let mut app = two_clusters();
    assert_eq!(app.tab, 0);
    assert_eq!(
        press(&mut app, KeyCode::Char('3')),
        AppAction::Kube(Request::Showing(2, Kind::Pods))
    );
    assert_eq!(app.tabs[app.tab].label(), "qa/uat");
    assert_eq!(press(&mut app, KeyCode::Char('9')), AppAction::Nothing);
    assert_eq!(app.tab, 2, "a number with no tab does nothing");
    for _ in 0..4 {
        press(&mut app, KeyCode::Char(']'));
    }
    assert_eq!(app.tab, 0, "round the end");
    press(&mut app, KeyCode::Char('['));
    assert_eq!(app.tabs[app.tab].label(), "Registries");
    assert_eq!(press(&mut app, KeyCode::Left), AppAction::Nothing);
    assert_eq!(app.tabs[app.tab].label(), "Secrets");
    assert_eq!(
        press(&mut app, KeyCode::Left),
        AppAction::Kube(Request::Showing(3, Kind::Pods))
    );
    assert_eq!(app.tabs[app.tab].label(), "prod");
    press(&mut app, KeyCode::Left);
    assert_eq!(app.tab, 2);
    assert_eq!(
        press(&mut app, KeyCode::Char('3')),
        AppAction::Nothing,
        "the same tab is not a switch"
    );

    app.shell.begin_frame();
    app.shell.region(Rect::new(0, 0, 8, 1), Target::Tab(1));
    assert_eq!(
        click(&mut app, 2, 0),
        AppAction::Kube(Request::Showing(1, Kind::Pods))
    );
    assert_eq!(app.tab, 1);
}

#[test]
fn no_clusters_at_all_leaves_the_two_azure_tabs() {
    let mut app = App::new(tabs(Vec::new()), Store::new(0));
    assert_eq!(app.tabs.len(), 2);
    press(&mut app, KeyCode::Char('1'));
    press(&mut app, KeyCode::Char('j'));
    press(&mut app, KeyCode::Char('e'));
    assert_eq!(
        press(&mut app, KeyCode::Char('r')),
        AppAction::Azure(az_tui::worker::Request::Refresh)
    );
    assert_eq!(app.session().tab.as_deref(), Some("secrets"));
    press(&mut app, KeyCode::Char(']'));
    assert_eq!(app.session().tab.as_deref(), Some("registries"));
    assert!(app.tick(0, today()).is_empty());
    let drawn = frame(&mut app);
    assert!(drawn.contains("1 Secrets"), "{drawn}");
    assert!(drawn.contains("2 Registries"), "{drawn}");
    assert!(!drawn.contains("Pods \u{25be}"), "no kind pill: {drawn}");
}

#[test]
fn one_menu_at_a_time_and_each_on_its_own_tab() {
    let mut app = two_clusters();
    app.store.azure = secrets_stocked();
    press(&mut app, KeyCode::Char('5'));
    let drawn = frame(&mut app);
    assert!(drawn.contains("Env \u{25be}"), "{drawn}");
    assert!(!drawn.contains("Pods \u{25be}"), "{drawn}");
    let header = app
        .shell
        .find(&Target::Header(ColumnId::Env))
        .expect("an Env header");
    click(&mut app, header.x, header.y);
    assert_eq!(app.shell.menu, Some((Menu::Env, 0)));
    // A click on a tab while the menu is open only closes the menu.
    app.shell.region(Rect::new(0, 0, 8, 1), Target::Tab(0));
    assert_eq!(click(&mut app, 2, 0), AppAction::Nothing);
    assert_eq!(app.shell.menu, None);
    assert_eq!(app.tab, 4);

    press(&mut app, KeyCode::Char('1'));
    let drawn = frame(&mut app);
    assert!(drawn.contains("Pods \u{25be}"), "{drawn}");
    assert!(!drawn.contains("Env \u{25be}"), "{drawn}");
    let pill = app.shell.find(&Target::KindPill).expect("the pill");
    click(&mut app, pill.x + 1, pill.y);
    assert_eq!(app.shell.menu, Some((Menu::Kind, 0)));
    // A number closes the menu and is not otherwise acted on.
    assert_eq!(press(&mut app, KeyCode::Char('5')), AppAction::Nothing);
    assert_eq!(app.shell.menu, None);
    assert_eq!(app.tab, 0);
    press(&mut app, KeyCode::Char('5'));
    assert_eq!(app.tab, 4);
    let drawn = frame(&mut app);
    assert!(drawn.contains("Env \u{25be}"), "{drawn}");
    assert!(!drawn.contains("Pods \u{25be}"), "{drawn}");
}

#[test]
fn esc_takes_things_off_in_order_on_every_kind_of_tab() {
    // A scope tab: the pane's filter, the query, the pane, then nothing.
    let mut app = stocked();
    press(&mut app, KeyCode::Enter);
    assert!(scope(&app, 0).pane.open);
    assert_eq!(app.shell.focus, Focus::Details);
    press(&mut app, KeyCode::Char('/'));
    assert_eq!(app.shell.focus, Focus::PaneSearch);
    app.handle_paste("INFO");
    press(&mut app, KeyCode::Enter);
    app.screens[0]
        .scope_mut()
        .unwrap()
        .list_mut()
        .input
        .set_text("orders");
    press(&mut app, KeyCode::Esc);
    assert!(scope(&app, 0).pane.filter.is_empty());
    assert_eq!(scope(&app, 0).list().input.text(), "orders");
    assert!(scope(&app, 0).pane.open);
    press(&mut app, KeyCode::Esc);
    assert!(scope(&app, 0).list().input.is_empty());
    assert!(scope(&app, 0).pane.open);
    press(&mut app, KeyCode::Esc);
    assert!(!scope(&app, 0).pane.open);
    assert_eq!(app.shell.focus, Focus::Table);
    assert_eq!(press(&mut app, KeyCode::Esc), AppAction::Nothing);

    // Secrets: the query, then nothing.
    press(&mut app, KeyCode::Char('5'));
    app.screens[4].secrets_mut().unwrap().input.set_text("db");
    press(&mut app, KeyCode::Esc);
    assert!(secrets(&app, 4).input.is_empty());
    assert_eq!(press(&mut app, KeyCode::Esc), AppAction::Nothing);

    // Registries: the query, then back out of a repository, then nothing.
    let mut app = azure_only_with(registries_stocked());
    press(&mut app, KeyCode::Char('2'));
    app.screens[1]
        .registries_mut()
        .unwrap()
        .refilter(&app.store.azure, today());
    press(&mut app, KeyCode::Enter);
    assert!(matches!(
        registries(&app, 1).level,
        Level::Tags { .. }
    ));
    app.screens[1]
        .registries_mut()
        .unwrap()
        .input_mut()
        .set_text("1.4");
    press(&mut app, KeyCode::Esc);
    assert!(registries(&app, 1).input().is_empty());
    assert!(matches!(
        registries(&app, 1).level,
        Level::Tags { .. }
    ));
    press(&mut app, KeyCode::Esc);
    assert!(matches!(registries(&app, 1).level, Level::Repositories));
    assert_eq!(press(&mut app, KeyCode::Esc), AppAction::Nothing);
    assert!(matches!(registries(&app, 1).level, Level::Repositories));
}

// ── The Azure tabs ─────────────────────────────────────────────────

#[test]
fn a_layout_survives_a_round_trip_through_the_file() {
    let mut app = azure_only();
    app.tab = 1;
    {
        let secrets = app.screens[0].secrets_mut().unwrap();
        secrets.sort = ColumnId::Expires;
        secrets.descending = true;
        secrets.layout.columns[0].width = 20;
        secrets.layout.columns[1].visible = false;
    }

    let session = app.session();
    let mut fresh = azure_only();
    fresh.restore(&session);

    assert_eq!(fresh.tab, 1);
    let secrets = secrets(&fresh, 0);
    assert_eq!(secrets.sort, ColumnId::Expires);
    assert!(secrets.descending);
    assert_eq!(secrets.layout.columns[0].width, 20);
    assert!(!secrets.layout.columns[1].visible);
}

#[test]
fn a_key_this_build_does_not_know_is_skipped_rather_than_fatal() {
    let mut session = Session {
        tab: Some("environments".into()),
        ..Session::default()
    };
    let held = session.tab("secrets");
    held.sort = Some(("from_the_future".into(), "asc".into()));
    held.columns = vec![SessionColumn {
        key: "from_the_future".into(),
        width: Some(9),
        visible: Some(false),
    }];

    let mut app = azure_only();
    let before = columns(&secrets(&app, 0).layout.columns);
    app.restore(&session);
    assert_eq!(app.tab, 0, "an unknown tab is the first one");
    assert_eq!(
        secrets(&app, 0).sort,
        ColumnId::Name,
        "and an unknown sort is the default"
    );
    assert_eq!(columns(&secrets(&app, 0).layout.columns), before);
}

#[test]
fn a_paste_lands_in_the_search_box_and_nowhere_else() {
    let mut app = azure_only();
    app.handle_paste("db\npass");
    assert!(secrets(&app, 0).input.is_empty(), "the table took nothing");
    app.shell.focus = Focus::Search;
    app.handle_paste("db\npass");
    assert_eq!(secrets(&app, 0).input.text(), "db pass");
}

#[test]
fn tab_leaves_the_search_box_and_esc_backs_out_of_a_repository() {
    let mut app = azure_only();
    app.shell.focus = Focus::Search;
    app.handle_key(KeyEvent::plain(KeyCode::Tab));
    assert_eq!(app.shell.focus, Focus::Table);

    // A query is what Esc takes off first; with none, the screen has it.
    app.screens[0].secrets_mut().unwrap().input.set_text("db");
    app.handle_key(KeyEvent::plain(KeyCode::Esc));
    assert!(secrets(&app, 0).input.is_empty());
    let mut app = azure_only_with(registries_stocked());
    app.tab = 1;
    app.screens[1]
        .registries_mut()
        .unwrap()
        .refilter(&app.store.azure, today());
    app.handle_key(KeyEvent::plain(KeyCode::Enter));
    assert!(matches!(
        registries(&app, 1).level,
        Level::Tags { .. }
    ));
    app.handle_key(KeyEvent::plain(KeyCode::Esc));
    assert!(matches!(registries(&app, 1).level, Level::Repositories));
}

#[test]
fn a_click_puts_focus_where_it_landed() {
    let mut app = azure_only();
    app.shell.begin_frame();
    app.shell.region(Rect::new(0, 5, 40, 10), Target::Details);
    app.shell.region(Rect::new(0, 1, 40, 1), Target::Row(0));
    app.shell.focus = Focus::Search;
    click(&mut app, 3, 1);
    assert_eq!(app.shell.focus, Focus::Table);
    click(&mut app, 3, 7);
    assert_eq!(app.shell.focus, Focus::Details);
}

#[test]
fn a_re_read_of_the_open_repositorys_tags_is_shown_in_its_new_order() {
        let mut app = azure_only_with(registries_stocked());
    app.tab = 1;
    app.screens[1]
        .registries_mut()
        .unwrap()
        .refilter(&app.store.azure, today());
    app.handle_key(KeyEvent::plain(KeyCode::Enter));
    app.screens[1]
        .registries_mut()
        .unwrap()
        .refilter(&app.store.azure, today());
    let first = |app: &App| {
        registries(app, 1)
            .selected_tag(&app.store.azure)
            .map(|tag| tag.name.clone())
    };
    let was = first(&app).expect("a tag under the cursor");
    // The same two names come back with their stamps swapped: the other
    // one is now the newest, and `Updated ↓` must put it first.
    let (registry, repo) = registries(&app, 1)
        .open_repository()
        .map(|(r, p)| (r.to_owned(), p.to_owned()))
        .unwrap();
    let Some(Ok(tags)) = app.store.azure.tags_of(&registry, &repo) else {
        panic!("tags");
    };
    let swapped: Vec<Tag> = tags
        .iter()
        .enumerate()
        .map(|(at, tag)| Tag {
            updated: Some(ts(if at == 0 {
                "2020-01-01T00:00:00Z"
            } else {
                "2030-01-01T00:00:00Z"
            })),
            name: tag.name.clone(),
            digest: tag.digest.clone(),
            created: tag.created,
        })
        .collect();
    app.apply_azure(
        az_tui::worker::Event::Tags {
            registry,
            repo,
            result: Ok(swapped),
        },
        0, today());
    app.screens[1]
        .registries_mut()
        .unwrap()
        .refilter(&app.store.azure, today());
    assert_ne!(first(&app).unwrap(), was, "the newest tag is first again");
}

#[test]
fn the_env_header_opens_a_menu_whose_choice_lands_in_the_search_box() {
    let mut app = azure_only_with(secrets_stocked());
    app.screens[0].secrets_mut().unwrap().input.set_text("db");
    let drawn = frame(&mut app);
    assert!(drawn.contains("Env \u{25be}"), "{drawn}");
    assert!(!drawn.contains("All"), "closed until asked for: {drawn}");
    let header = app
        .shell
        .find(&Target::Header(ColumnId::Env))
        .expect("the table drew an Env header");
    click(&mut app, header.x, header.y);
    assert_eq!(app.shell.menu, Some((Menu::Env, 0)), "open, on All");
    assert_eq!(secrets(&app, 0).sort, ColumnId::Name, "and it did not sort");
    let drawn = frame(&mut app);
    assert!(drawn.contains("\u{2713} All"), "{drawn}");
    assert!(drawn.contains("  prod"), "{drawn}");
    let prod = app
        .shell
        .find(&Target::EnvOption(Some(Env::Prod)))
        .expect("a line for prod");
    assert!(prod.y > header.y, "under the header");

    // Down to prod and Enter: the filter is in the box, the menu is gone.
    for _ in 0..3 {
        press(&mut app, KeyCode::Char('j'));
    }
    press(&mut app, KeyCode::Enter);
    assert_eq!(secrets(&app, 0).input.text(), "db env:prod");
    assert_eq!(app.shell.menu, None);
    app.screens[0]
        .secrets_mut()
        .unwrap()
        .refilter(&app.store.azure, today());
    assert!(
        secrets(&app, 0)
            .visible()
            .iter()
            .all(|at| app.store.azure.secrets[*at].vault == "kv-prod"),
        "{:?}",
        secrets(&app, 0).visible()
    );

    // Opened again it starts on prod; a click on a line chooses it, and
    // a click anywhere else only closes it.
    app.shell.begin_frame();
    app.shell
        .region(Rect::new(2, 2, 6, 1), Target::Header(ColumnId::Env));
    click(&mut app, 3, 2);
    assert_eq!(app.shell.menu, Some((Menu::Env, 3)));
    app.shell
        .region(Rect::new(2, 4, 6, 1), Target::EnvOption(None));
    app.shell.region(Rect::new(2, 9, 20, 1), Target::Row(1));
    click(&mut app, 3, 9);
    assert_eq!(app.shell.menu, None);
    assert_eq!(
        secrets(&app, 0).cursor.index,
        0,
        "the row under it was not taken"
    );
    assert_eq!(secrets(&app, 0).input.text(), "db env:prod");
    click(&mut app, 3, 2);
    click(&mut app, 3, 4);
    assert_eq!(
        secrets(&app, 0).input.text(),
        "db",
        "All takes the filter off"
    );

    // Any other key closes it and is not otherwise acted on.
    click(&mut app, 3, 2);
    assert!(app.shell.menu.is_some());
    press(&mut app, KeyCode::Char('q'));
    assert_eq!(app.shell.menu, None);
}

#[test]
fn the_session_never_carries_the_query_or_the_cursor() {
    let mut app = azure_only();
    let secrets = app.screens[0].secrets_mut().unwrap();
    secrets.input.set_text("vault:kv-prod db-password");
    secrets.cursor.focus(7);
    let written = format!("{:?}", app.session());
    assert!(!written.contains("db-password"), "{written}");
    assert!(!written.contains("kv-prod"), "{written}");
    assert!(!written.contains("cursor"), "{written}");
}

#[test]
fn the_status_bar_shows_the_spinner_while_reading_and_the_problem_after() {
        let mut app = azure_only();
    app.apply_azure(
        az_tui::worker::Event::Inventory(Ok(Inventory::default())),
        0, today());
    app.apply_azure(
        az_tui::worker::Event::Progress("reading kv-prod (2/3)…".into()),
        0, today());
    assert_eq!(
        app.poll_for(1_000, 0),
        100
    );
    let drawn = frame(&mut app);
    assert!(drawn.contains("reading kv-prod (2/3)"), "{drawn}");

    app.apply_azure(
        az_tui::worker::Event::Secrets {
            vault: "kv-prod".into(),
            result: Err("no permission to read secrets".into()),
        },
        0, today());
    app.apply_azure(az_tui::worker::Event::Idle, 0, today());
    let drawn = frame(&mut app);
    assert!(drawn.contains("! kv-prod: no permission"), "{drawn}");
    app.shell.help_open = true;
    let drawn = frame(&mut app);
    assert!(drawn.contains("kv-prod: no permission"), "{drawn}");
}

#[test]
fn the_status_bar_counts_what_the_open_tab_holds() {
    let mut app = azure_only();
    let drawn = frame(&mut app);
    assert!(
        drawn.contains("0 vaults · 0 secrets · never read"),
        "{drawn}"
    );
    app.tab = 1;
    let drawn = frame(&mut app);
    assert!(
        drawn.contains("0 registries · 0 repositories · never read"),
        "{drawn}"
    );
    assert!(!drawn.contains("vaults"), "{drawn}");
}

// ── The scope tabs ─────────────────────────────────────────────────

#[test]
fn the_kinds_are_reached_by_key_and_by_the_pill_and_each_tab_remembers_its_own() {
    let mut app = stocked();
    assert_eq!(
        press(&mut app, KeyCode::Char('m')),
        AppAction::Kube(Request::Showing(0, Kind::ConfigMaps))
    );
    assert_eq!(app.kind(), Some(Kind::ConfigMaps));
    let drawn = frame(&mut app);
    assert!(drawn.contains("ConfigMaps ▾"), "{drawn}");
    assert!(drawn.contains("orders-config"), "{drawn}");
    assert!(drawn.contains("● 1 configmaps · just now"), "{drawn}");
    assert_eq!(
        press(&mut app, KeyCode::Char('m')),
        AppAction::Nothing,
        "already there"
    );

    // Another tab keeps pods; back here keeps configmaps.
    assert_eq!(
        press(&mut app, KeyCode::Char('4')),
        AppAction::Kube(Request::Showing(3, Kind::Pods))
    );
    assert_eq!(
        press(&mut app, KeyCode::Char('1')),
        AppAction::Kube(Request::Showing(0, Kind::ConfigMaps))
    );

    // The pill opens a menu; j, Enter chooses; a click on a line chooses.
    // The pill moves with its label, so it is found again after each draw.
    let pill = |app: &mut App| {
        frame(app);
        app.shell.find(&Target::KindPill).expect("the pill")
    };
    let at = pill(&mut app);
    click(&mut app, at.x + 1, at.y);
    assert_eq!(app.shell.menu, Some((Menu::Kind, 2)), "open, on ConfigMaps");
    let drawn = frame(&mut app);
    assert!(drawn.contains("\u{2713} ConfigMaps"), "{drawn}");
    press(&mut app, KeyCode::Char('j'));
    assert_eq!(
        press(&mut app, KeyCode::Enter),
        AppAction::Kube(Request::Showing(0, Kind::Secrets))
    );
    assert_eq!(app.shell.menu, None);
    assert_eq!(app.kind(), Some(Kind::Secrets));
    let at = pill(&mut app);
    click(&mut app, at.x + 1, at.y);
    frame(&mut app);
    let events = app
        .shell
        .find(&Target::KindOption(Kind::Events))
        .expect("a line for events");
    assert_eq!(
        click(&mut app, events.x + 2, events.y),
        AppAction::Kube(Request::Showing(0, Kind::Events))
    );
    // Any other key closes the menu and is not otherwise acted on.
    let at = pill(&mut app);
    click(&mut app, at.x + 1, at.y);
    assert!(app.shell.menu.is_some());
    press(&mut app, KeyCode::Char('q'));
    assert_eq!(app.shell.menu, None);
    assert_eq!(app.kind(), Some(Kind::Events));

    // A pod's key on another kind says so.
    press(&mut app, KeyCode::Char('x'));
    assert!(
        app.shell
            .notification()
            .is_some_and(|(said, _)| said.contains("pod's key"))
    );
    assert_eq!(
        press(&mut app, KeyCode::Char('s')),
        AppAction::Kube(Request::Showing(0, Kind::Secrets))
    );
    assert_eq!(
        press(&mut app, KeyCode::Char('p')),
        AppAction::Kube(Request::Showing(0, Kind::Pods))
    );
}

#[test]
fn e_on_a_pod_shows_its_events_and_enter_on_one_goes_back_to_the_pod() {
    let mut app = stocked();
    app.screens[0]
        .scope_mut()
        .unwrap()
        .refilter(&app.store.scopes[0]);
    press(&mut app, KeyCode::Char('j'));
    assert_eq!(
        selected_pod_name(&app).as_deref(),
        Some("orders-api-7d9f5b-def34")
    );
    assert_eq!(
        press(&mut app, KeyCode::Char('e')),
        AppAction::Kube(Request::Showing(0, Kind::Events))
    );
    assert_eq!(app.kind(), Some(Kind::Events));
    let drawn = frame(&mut app);
    assert!(drawn.contains("BackOff"), "{drawn}");
    assert!(!drawn.contains("Pulled"), "narrowed to the pod: {drawn}");

    press(&mut app, KeyCode::Esc);
    app.screens[0]
        .scope_mut()
        .unwrap()
        .refilter(&app.store.scopes[0]);
    press(&mut app, KeyCode::Char('j'));
    assert_eq!(
        press(&mut app, KeyCode::Enter),
        AppAction::Kube(Request::Showing(0, Kind::Pods))
    );
    assert_eq!(app.kind(), Some(Kind::Pods));
    assert_eq!(
        selected_pod_name(&app).as_deref(),
        Some("orders-api-7d9f5b-abc12")
    );

    // d on an event describes what the event is about.
    press(&mut app, KeyCode::Char('e'));
    press(&mut app, KeyCode::Esc);
    app.screens[0]
        .scope_mut()
        .unwrap()
        .refilter(&app.store.scopes[0]);
    let action = press(&mut app, KeyCode::Char('d'));
    assert!(
        matches!(
            action,
            AppAction::Kube(Request::Describe { ref object, .. }) if object.slash() == "pod/orders-api-7d9f5b-def34"
        ),
        "{action:?}"
    );
}

#[test]
fn a_secrets_value_is_read_on_v_shown_for_sixty_seconds_and_y_copies_it_unseen() {
    let mut app = stocked();
    press(&mut app, KeyCode::Char('s'));
    app.screens[0]
        .scope_mut()
        .unwrap()
        .refilter(&app.store.scopes[0]);
    let drawn = frame(&mut app);
    assert!(drawn.contains("› password  7 bytes"), "{drawn}");
    assert!(!drawn.contains("hunter2"), "{drawn}");
    let object = ObjectRef {
        kind: "secret".to_owned(),
        namespace: "dev".to_owned(),
        name: "db".to_owned(),
    };
    assert_eq!(
        press(&mut app, KeyCode::Char('v')),
        AppAction::Kube(Request::SecretValue {
            scope: 0,
            object: object.clone(),
            key: "password".to_owned(),
            copy: false,
        })
    );
    assert_eq!(
        app.poll_for(9_000, 0),
        1_000,
        "counting"
    );
    let drawn = frame(&mut app);
    assert!(drawn.contains("Value · db · password"), "{drawn}");
    assert!(drawn.contains("Reading…"), "{drawn}");
    let action = app.apply_kube(Event::SecretValue {
        scope: 0,
        object: object.clone(),
        key: "password".to_owned(),
        copy: false,
        value: Ok(Secret::new("hunter2")),
    }, today());
    assert_eq!(action, AppAction::Nothing);
    let drawn = frame(&mut app);
    assert!(drawn.contains("hunter2"), "{drawn}");
    assert!(drawn.contains("clears in"), "{drawn}");

    // Moving the cursor hides it; y reads it for the clipboard alone.
    press(&mut app, KeyCode::Tab);
    assert_eq!(app.shell.focus, Focus::Table);
    press(&mut app, KeyCode::Char('j'));
    let drawn = frame(&mut app);
    assert!(!drawn.contains("hunter2"), "{drawn}");
    assert!(drawn.contains("tls.crt"), "{drawn}");
    press(&mut app, KeyCode::Char('k'));
    assert_eq!(
        press(&mut app, KeyCode::Char('y')),
        AppAction::Kube(Request::SecretValue {
            scope: 0,
            object: object.clone(),
            key: "password".to_owned(),
            copy: true,
        })
    );
    let action = app.apply_kube(Event::SecretValue {
        scope: 0,
        object,
        key: "password".to_owned(),
        copy: true,
        value: Ok(Secret::new("hunter2")),
    }, today());
    assert_eq!(
        action,
        AppAction::Copy {
            text: "hunter2".to_owned(),
            label: "Copied password of db".to_owned()
        }
    );
    let written = format!("{:?}", app.store.snapshot(&app.tabs));
    assert!(
        !written.contains("hunter2") && !written.contains("password"),
        "{written}"
    );
    assert!(scope(&app, 0).modal.is_none());
}

#[test]
fn a_configmaps_value_shows_on_enter_and_y_copies_it() {
    let mut app = stocked();
    press(&mut app, KeyCode::Char('m'));
    app.screens[0]
        .scope_mut()
        .unwrap()
        .refilter(&app.store.scopes[0]);
    assert_eq!(press(&mut app, KeyCode::Enter), AppAction::Nothing);
    let drawn = frame(&mut app);
    assert!(
        drawn.contains("Value · orders-config · LOG_LEVEL"),
        "{drawn}"
    );
    assert!(drawn.contains("info"), "{drawn}");
    assert_eq!(
        press(&mut app, KeyCode::Char('y')),
        AppAction::Copy {
            text: "info".to_owned(),
            label: "Copied LOG_LEVEL of orders-config".to_owned()
        }
    );
    assert!(matches!(
        press(&mut app, KeyCode::Char('d')),
        AppAction::Kube(Request::Describe { .. })
    ));
}

#[test]
fn r_reads_the_open_tab_again_and_says_so() {
    let mut app = two_clusters();
    press(&mut app, KeyCode::Char('4'));
    assert_eq!(
        press(&mut app, KeyCode::Char('r')),
        AppAction::Kube(Request::Refresh(3))
    );
    assert_eq!(
        app.shell.notification().map(|(said, _)| said),
        Some("Reading prod/prod…")
    );
}

#[test]
fn each_tab_and_kind_keeps_its_own_search_box() {
    let mut app = two_clusters();
    app.shell.focus = Focus::Search;
    app.handle_paste("orders");
    press(&mut app, KeyCode::Esc);
    assert_eq!(scope(&app, 0).list().input.text(), "orders");
    press(&mut app, KeyCode::Char('2'));
    assert!(
        scope(&app, 1).list().input.is_empty(),
        "the other tab's box is its own"
    );
    press(&mut app, KeyCode::Char('5'));
    assert!(secrets(&app, 4).input.is_empty(), "and so is Secrets'");
    press(&mut app, KeyCode::Char('1'));
    assert_eq!(
        scope(&app, 0).list().input.text(),
        "orders",
        "and comes back as it was"
    );
    press(&mut app, KeyCode::Char('e'));
    assert!(
        scope(&app, 0).list().input.is_empty(),
        "the events' box is its own"
    );
    press(&mut app, KeyCode::Char('p'));
    press(&mut app, KeyCode::Esc);
    assert!(
        scope(&app, 0).list().input.is_empty(),
        "Esc out of the table clears it"
    );
}

#[test]
fn a_read_lands_on_its_own_tab_keeps_the_cursor_and_marks_the_cache_dirty() {
    let mut app = stocked();
    assert!(app.cache_dirty);
    app.screens[0]
        .scope_mut()
        .unwrap()
        .refilter(&app.store.scopes[0]);
    app.screens[0]
        .scope_mut()
        .unwrap()
        .list_mut()
        .cursor
        .focus(1);
    let chosen = scope(&app, 0)
        .cursor_identity(Kind::Pods, &app.store.scopes[0])
        .unwrap();
    // A pod that sorts ahead of both pushes the chosen row down a line.
    app.apply_kube(Event::Pods {
        scope: 0,
        pods: Ok(vec![
            crashing("qa", "dev", "orders-api-7d9f5b-def34"),
            pod("qa", "dev", "orders-api-7d9f5b-abc12", "Running"),
            pod("qa", "dev", "orders-api-7d9f5b-aaa01", "Running"),
        ]),
    }, today());
    assert_eq!(app.store.scopes[0].pods.rows.len(), 3);
    assert_eq!(app.store.scopes[3].pods.rows.len(), 1, "prod is untouched");
    assert_eq!(scope(&app, 0).list().cursor.index, 2, "the row moved down");
    assert_eq!(
        scope(&app, 0).cursor_identity(Kind::Pods, &app.store.scopes[0]),
        Some(chosen)
    );
}

#[test]
fn a_failed_read_is_said_once_for_the_open_tab_and_kind_and_its_rows_stand() {
    let mut app = stocked();
    app.apply_kube(Event::Pods {
        scope: 0,
        pods: Err("Unable to connect to the server".into()),
    }, today());
    assert_eq!(
        app.shell.notification().map(|(said, _)| said),
        Some("qa/dev pods: Unable to connect to the server")
    );
    assert_eq!(
        app.store.scopes[0].pods.rows.len(),
        2,
        "yesterday's rows stand"
    );

    let mut app = stocked();
    app.apply_kube(Event::Pods {
        scope: 3,
        pods: Err("Unable to connect to the server".into()),
    }, today());
    assert!(
        app.shell.notification().is_none(),
        "a hidden tab's trouble is on its badge and in ?, not the status bar"
    );
    app.tab = 3;
    app.apply_kube(Event::Pods {
        scope: 3,
        pods: Err("Unable to connect to the server".into()),
    }, today());
    assert!(
        app.shell.notification().is_none(),
        "the same refusal is not said twice"
    );
    app.apply_kube(Event::Pods {
        scope: 3,
        pods: Err("context \"aks-prod\" does not exist".into()),
    }, today());
    assert!(app.shell.notification().is_some(), "a different one is");
    app.apply_kube(Event::Secrets {
        scope: 3,
        secrets: Err("secrets is forbidden".into()),
    }, today());
    let drawn = frame(&mut app);
    assert!(
        !drawn.contains("! prod/prod secrets"),
        "not the kind on screen: {drawn}"
    );
    press(&mut app, KeyCode::Char('s'));
    let drawn = frame(&mut app);
    assert!(
        drawn.contains("! prod/prod secrets: secrets is forbidden"),
        "{drawn}"
    );
}

#[test]
fn the_frame_wears_the_badge_the_counts_and_the_problems() {
    let mut app = stocked();
    let drawn = frame(&mut app);
    assert!(drawn.contains("1 qa/dev \u{2717} 1"), "{drawn}");
    assert!(drawn.contains("4 prod"), "{drawn}");
    assert!(drawn.contains("5 Secrets"), "{drawn}");
    assert!(drawn.contains("orders-api-7d9f5b-def34"), "{drawn}");
    assert!(drawn.contains("● 2 pods · just now"), "{drawn}");

    app.apply_kube(Event::Pods {
        scope: 0,
        pods: Err("Unable to connect to the server".into()),
    }, today());
    app.apply_azure(
        az_tui::worker::Event::Inventory(Err("not signed in".into())),
        0, today());
    let drawn = frame(&mut app);
    assert!(
        drawn.contains("! qa/dev pods: Unable to connect"),
        "{drawn}"
    );
    app.shell.help_open = true;
    let drawn = frame(&mut app);
    assert!(
        drawn.contains("qa/dev pods: Unable to connect to the server"),
        "{drawn}"
    );
    assert!(drawn.contains("not signed in"), "both halves: {drawn}");

    let mut app = two_clusters();
    app.apply_kube(Event::Reading { scope: 0 }, today());
    assert_eq!(
        app.poll_for(1_000, 0),
        100
    );
    let drawn = frame(&mut app);
    assert!(drawn.contains("reading qa/dev pods…"), "{drawn}");
}

#[test]
fn enter_opens_the_log_and_the_tick_tells_the_worker_what_to_follow() {
    let mut app = stocked();
    assert_eq!(
        follow_tick(&mut app),
        None,
        "nothing followed with the pane closed"
    );
    assert_eq!(press(&mut app, KeyCode::Enter), AppAction::Nothing);
    assert_eq!(app.shell.focus, Focus::Details, "the pane takes the keys");
    let request = follow_tick(&mut app).expect("a follow");
    let Request::Follow(target) = request else {
        panic!("expected a follow, got {request:?}");
    };
    assert_eq!(target.scope, 0);
    assert_eq!(target.key.name, "orders-api-7d9f5b-abc12");
    assert_eq!(follow_tick(&mut app), None, "said once");

    app.apply_kube(Event::LogLines {
        target: target.clone(),
        lines: vec!["2026-09-12T12:00:00Z INFO up".to_owned()],
        finished: false,
    }, today());
    assert_eq!(scope(&app, 0).log_lines().len(), 1);
    let drawn = frame(&mut app);
    assert!(
        drawn.contains("Log · following · orders-api-7d9f5b-abc12"),
        "{drawn}"
    );

    // Back to the table and down a row: the follow moves with the cursor.
    press(&mut app, KeyCode::Tab);
    press(&mut app, KeyCode::Char('j'));
    app.screens[0]
        .scope_mut()
        .unwrap()
        .refilter(&app.store.scopes[0]);
    let Some(Request::Follow(next)) = follow_tick(&mut app) else {
        panic!("the next pod's log");
    };
    assert_eq!(next.key.name, "orders-api-7d9f5b-def34");
    assert!(
        scope(&app, 0).log_lines().is_empty(),
        "the lines were the last pod's"
    );

    // Another kind, another tab: nothing on this one is followed any more.
    press(&mut app, KeyCode::Char('e'));
    assert_eq!(follow_tick(&mut app), Some(Request::Unfollow));
    press(&mut app, KeyCode::Char('p'));
    press(&mut app, KeyCode::Enter);
    assert!(matches!(follow_tick(&mut app), Some(Request::Follow(_))));
    press(&mut app, KeyCode::Char('4'));
    assert_eq!(follow_tick(&mut app), Some(Request::Unfollow));
    press(&mut app, KeyCode::Char('1'));
    assert!(
        matches!(follow_tick(&mut app), Some(Request::Follow(_))),
        "and back again"
    );
    // An Azure tab follows nothing either.
    press(&mut app, KeyCode::Char('5'));
    assert_eq!(follow_tick(&mut app), Some(Request::Unfollow));
    press(&mut app, KeyCode::Char('1'));
    assert!(matches!(follow_tick(&mut app), Some(Request::Follow(_))));

    // Esc closes the pane; the tick says so.
    press(&mut app, KeyCode::Esc);
    assert!(!scope(&app, 0).pane.open);
    assert_eq!(app.shell.focus, Focus::Table);
    assert_eq!(follow_tick(&mut app), Some(Request::Unfollow));
}

#[test]
fn d_asks_for_a_describe_once_and_the_pane_shows_it_when_it_lands() {
    let mut app = stocked();
    let AppAction::Kube(Request::Describe {
        scope: index,
        object,
    }) = press(&mut app, KeyCode::Char('d'))
    else {
        panic!("a describe request");
    };
    assert_eq!(index, 0);
    assert_eq!(object.slash(), "pod/orders-api-7d9f5b-abc12");
    assert_eq!(follow_tick(&mut app), None, "a describe follows nothing");
    let drawn = frame(&mut app);
    assert!(
        drawn.contains("Describe · orders-api-7d9f5b-abc12"),
        "{drawn}"
    );
    assert!(drawn.contains("Describe…"), "{drawn}");

    app.apply_kube(Event::Text {
        scope: 0,
        kind: TextKind::Describe,
        object: object.clone(),
        text: Ok(vec![
            "Name:  orders-api-7d9f5b-abc12".to_owned(),
            "Node:  aks-np1".to_owned(),
        ]),
    }, today());
    let drawn = frame(&mut app);
    assert!(drawn.contains("Node:  aks-np1"), "{drawn}");
    assert_eq!(
        press(&mut app, KeyCode::Char('d')),
        AppAction::Nothing,
        "on file now"
    );

    // The filter inside the pane.
    press(&mut app, KeyCode::Char('/'));
    assert_eq!(app.shell.focus, Focus::PaneSearch);
    app.handle_paste("Node");
    press(&mut app, KeyCode::Enter);
    let drawn = frame(&mut app);
    assert!(drawn.contains("/ Node · 1/2"), "{drawn}");
    assert!(!drawn.contains("Name:  orders"), "{drawn}");
    press(&mut app, KeyCode::Esc);
    assert!(
        scope(&app, 0).pane.filter.is_empty(),
        "Esc takes the filter off first"
    );
    assert!(scope(&app, 0).pane.open);

    // Y copies the line for what the pane shows; y the name.
    assert_eq!(
        press(&mut app, KeyCode::Char('Y')),
        AppAction::Copy {
            text: "kubectl --context aks-qa -n dev describe pod/orders-api-7d9f5b-abc12"
                .to_owned(),
            label:
                "Copied `kubectl --context aks-qa -n dev describe pod/orders-api-7d9f5b-abc12`"
                    .to_owned(),
        }
    );
    assert!(matches!(
        press(&mut app, KeyCode::Char('y')),
        AppAction::Copy { text, .. } if text == "orders-api-7d9f5b-abc12"
    ));

    // v: the YAML, asked for; r forgets both.
    assert!(matches!(
        press(&mut app, KeyCode::Char('v')),
        AppAction::Kube(Request::Yaml { .. })
    ));
    press(&mut app, KeyCode::Char('r'));
    assert!(matches!(
        press(&mut app, KeyCode::Char('d')),
        AppAction::Kube(Request::Describe { .. })
    ));
}

#[test]
fn x_asks_first_and_the_second_x_is_the_one_delete_while_a_bare_pod_is_refused() {
    let mut app = stocked();
    assert_eq!(press(&mut app, KeyCode::Char('x')), AppAction::Nothing);
    assert!(scope(&app, 0).modal.is_some(), "asked, not deleted");
    let drawn = frame(&mut app);
    assert!(
        drawn.contains("Restart orders-api-7d9f5b-abc12?"),
        "{drawn}"
    );
    assert!(
        drawn.contains("Deployment orders-api replaces it"),
        "{drawn}"
    );
    assert!(drawn.contains("x again to restart it"), "{drawn}");
    // Any other key closes it and is not otherwise acted on.
    assert_eq!(press(&mut app, KeyCode::Char('j')), AppAction::Nothing);
    assert!(scope(&app, 0).modal.is_none());
    assert_eq!(
        scope(&app, 0).list().cursor.index,
        0,
        "j did not move the cursor"
    );

    press(&mut app, KeyCode::Char('x'));
    let action = press(&mut app, KeyCode::Char('x'));
    let AppAction::Kube(Request::Delete { scope: 0, key }) = action else {
        panic!("the delete, got {action:?}");
    };
    assert_eq!(key.name, "orders-api-7d9f5b-abc12");
    assert!(scope(&app, 0).modal.is_none());
    app.apply_kube(Event::Deleted {
        scope: 0,
        key,
        error: None,
    }, today());
    assert_eq!(
        app.shell.notification().map(|(said, _)| said),
        Some("Deleted orders-api-7d9f5b-abc12; Deployment orders-api is putting a new one up")
    );

    // The modal takes the pointer: a click on its yes answers, a click
    // anywhere else closes it, and nothing underneath is reached.
    press(&mut app, KeyCode::Char('x'));
    frame(&mut app);
    let yes = app.shell.find(&Target::Confirm).expect("a yes button");
    assert!(matches!(
        click(&mut app, yes.x, yes.y),
        AppAction::Kube(Request::Delete { .. })
    ));
    press(&mut app, KeyCode::Char('x'));
    frame(&mut app);
    assert_eq!(
        click(&mut app, 2, 4),
        AppAction::Nothing,
        "a row under the modal"
    );
    assert!(scope(&app, 0).modal.is_none(), "closed");
    assert_eq!(
        scope(&app, 0).list().cursor.index,
        0,
        "and the row was not taken"
    );

    // A pod nothing put there is refused outright.
    let mut bare = pod("qa", "dev", "debug-shell", "Running");
    bare.owner = None;
    app.apply_kube(Event::Pods {
        scope: 0,
        pods: Ok(vec![bare]),
    }, today());
    app.screens[0]
        .scope_mut()
        .unwrap()
        .refilter(&app.store.scopes[0]);
    press(&mut app, KeyCode::Char('x'));
    assert!(scope(&app, 0).modal.is_none());
    assert!(
        app.shell
            .notification()
            .is_some_and(|(said, _)| said.contains("no controller"))
    );
    press(&mut app, KeyCode::Char('X'));
    assert!(scope(&app, 0).modal.is_none());
    assert!(
        app.shell
            .notification()
            .is_some_and(|(said, _)| said.contains("nothing to roll"))
    );
}

#[test]
fn the_owner_is_read_once_the_cursor_rests_and_equals_scales_it() {
    let mut app = stocked();
    app.screens[0]
        .scope_mut()
        .unwrap()
        .refilter(&app.store.scopes[0]);
    let now: u64 = 1_000;
    assert!(app.tick(now, today()).is_empty(), "the rest has just started");
    assert!(app.is_resting(now));
    let actions = app.tick(now + REST, today());
    let deployment = ObjectRef {
        kind: "deployment".to_owned(),
        namespace: "dev".to_owned(),
        name: "orders-api".to_owned(),
    };
    assert_eq!(
        actions,
        vec![AppAction::Kube(Request::Owner {
            scope: 0,
            object: deployment.clone()
        })]
    );
    assert!(app.tick(now + REST * 2, today()).is_empty(), "asked once");
    app.apply_kube(Event::Owner {
        scope: 0,
        object: deployment.clone(),
        replicas: Ok(Replicas {
            desired: 3,
            ready: 3,
        }),
    }, today());
    let drawn = frame(&mut app);
    assert!(
        drawn.contains("Deployment/orders-api · 3/3 ready"),
        "{drawn}"
    );

    // = opens the scale modal filled with the count; Enter sends it.
    assert_eq!(
        press(&mut app, KeyCode::Char('=')),
        AppAction::Nothing,
        "on file: nothing to ask"
    );
    let drawn = frame(&mut app);
    assert!(drawn.contains("Replicas  [ 3"), "{drawn}");
    assert!(drawn.contains("now 3 desired · 3 ready"), "{drawn}");
    press(&mut app, KeyCode::Backspace);
    press(&mut app, KeyCode::Char('5'));
    let action = press(&mut app, KeyCode::Enter);
    assert_eq!(
        action,
        AppAction::Kube(Request::Scale {
            scope: 0,
            object: deployment.clone(),
            replicas: 5
        })
    );
    app.apply_kube(Event::Acted {
        scope: 0,
        verb: "scale".to_owned(),
        object: deployment.clone(),
        error: None,
    }, today());
    assert_eq!(
        app.shell.notification().map(|(said, _)| said),
        Some("deployment/orders-api scale sent")
    );

    // Not a number: the modal stays and says so.
    press(&mut app, KeyCode::Char('='));
    press(&mut app, KeyCode::Backspace);
    press(&mut app, KeyCode::Char('x'));
    assert_eq!(press(&mut app, KeyCode::Enter), AppAction::Nothing);
    assert!(scope(&app, 0).modal.is_some());
    assert!(
        app.shell
            .notification()
            .is_some_and(|(said, _)| said.contains("whole number"))
    );
    press(&mut app, KeyCode::Esc);
    assert!(scope(&app, 0).modal.is_none());

    // X: the rollout, confirmed with X.
    press(&mut app, KeyCode::Char('X'));
    assert_eq!(
        press(&mut app, KeyCode::Char('X')),
        AppAction::Kube(Request::RolloutRestart {
            scope: 0,
            object: deployment
        })
    );

    // A pod on a StatefulSet: scalable too; on a Job: not.
    let mut redis = pod("qa", "dev", "redis-0", "Running");
    redis.owner = Some(("StatefulSet".to_owned(), "redis".to_owned()));
    let mut job = pod("qa", "dev", "report-x1", "Completed");
    job.owner = Some(("Job".to_owned(), "report".to_owned()));
    app.apply_kube(Event::Pods {
        scope: 0,
        pods: Ok(vec![job, redis]),
    }, today());
    app.screens[0]
        .scope_mut()
        .unwrap()
        .refilter(&app.store.scopes[0]);
    // By name: redis-0 first, report-x1 second.
    assert!(
        matches!(
            press(&mut app, KeyCode::Char('=')),
            AppAction::Kube(Request::Owner { .. })
        ),
        "not on file yet: asked, and the box fills when it lands"
    );
    assert!(scope(&app, 0).modal.is_some());
    press(&mut app, KeyCode::Esc);
    press(&mut app, KeyCode::Char('j'));
    press(&mut app, KeyCode::Char('='));
    assert!(scope(&app, 0).modal.is_none());
    assert!(
        app.shell
            .notification()
            .is_some_and(|(said, _)| said.contains("nothing to scale"))
    );
}

#[test]
fn b_hands_the_terminal_to_kubectl_exec_on_the_pod_and_its_followed_container() {
    let mut app = stocked();
    assert_eq!(
        press(&mut app, KeyCode::Char('b')),
        AppAction::Exec {
            context: "aks-qa".to_owned(),
            namespace: "dev".to_owned(),
            pod: "orders-api-7d9f5b-abc12".to_owned(),
            container: None,
        }
    );
    // The toolbar button is the same key.
    frame(&mut app);
    let bash = app
        .shell
        .find(&Target::Button(Button::Bash))
        .expect("a Bash button");
    assert!(matches!(
        click(&mut app, bash.x + 1, bash.y),
        AppAction::Exec { .. }
    ));
    let logs = app
        .shell
        .find(&Target::Button(Button::Logs))
        .expect("a Logs button");
    click(&mut app, logs.x + 1, logs.y);
    assert!(scope(&app, 0).pane.open, "the Logs button opens the pane");
}

#[test]
fn a_layout_survives_a_round_trip_through_the_file_by_the_tabs_key() {
    let mut app = two_clusters();
    app.tab = 3;
    {
        let prod = app.screens[3].scope_mut().unwrap();
        prod.set_kind(Kind::Events);
        prod.list_of_mut(Kind::Pods).sort = ColumnId::Age;
        prod.list_of_mut(Kind::Pods).descending = true;
        prod.list_of_mut(Kind::Pods).layout.columns[0].width = 20;
    }
    app.screens[0]
        .scope_mut()
        .unwrap()
        .list_of_mut(Kind::Pods)
        .layout
        .set_visible(ColumnId::Node, true);
    app.screens[5].registries_mut().unwrap().repositories.sort = ColumnId::Created;

    let session = app.session();
    assert!(session.get("prod/prod").is_some(), "{session:?}");
    assert!(session.get("registries").is_some(), "{session:?}");
    let mut fresh = two_clusters();
    fresh.restore(&session);

    assert_eq!(fresh.tabs[fresh.tab].label(), "prod");
    assert_eq!(fresh.tabs[fresh.tab].key(), "prod/prod");
    let prod = scope(&fresh, 3);
    assert_eq!(prod.kind, Kind::Events);
    assert_eq!(prod.list_of(Kind::Pods).sort, ColumnId::Age);
    assert!(prod.list_of(Kind::Pods).descending);
    assert_eq!(prod.list_of(Kind::Pods).layout.columns[0].width, 20);
    let node_shown = |app: &App, tab: usize| {
        scope(app, tab)
            .list_of(Kind::Pods)
            .layout
            .columns
            .iter()
            .any(|column| column.id == ColumnId::Node && column.visible)
    };
    assert!(node_shown(&fresh, 0));
    assert!(!node_shown(&fresh, 1));
    assert_eq!(registries(&fresh, 5).repositories.sort, ColumnId::Created);

    let written = format!("{session:?}");
    assert!(!written.contains("cursor"), "{written}");
    assert!(!written.contains("query"), "{written}");
}

#[test]
fn a_tab_or_column_this_build_does_not_know_is_skipped_rather_than_fatal() {
    let mut session = Session {
        tab: Some("staging/blue".into()),
        ..Session::default()
    };
    let held = session.tab("qa/dev");
    held.kind = Some("nodes".into());
    held.sort = Some(("from_the_future".into(), "asc".into()));
    held.columns = vec![SessionColumn {
        key: "from_the_future".into(),
        width: Some(9),
        visible: Some(false),
    }];
    let mut app = two_clusters();
    let before = columns(&scope(&app, 0).list_of(Kind::Pods).layout.columns);
    app.restore(&session);
    assert_eq!(app.tab, 0, "an unknown tab is the first one");
    assert_eq!(scope(&app, 0).kind, Kind::Pods, "an unknown kind is pods");
    assert_eq!(scope(&app, 0).list_of(Kind::Pods).sort, ColumnId::Name);
    assert_eq!(
        columns(&scope(&app, 0).list_of(Kind::Pods).layout.columns),
        before
    );
}

#[test]
fn a_tab_over_every_namespace_shows_which_one_a_row_is_in() {
    let tabs = tabs(
        vec![scope_tab("lab", "lab", "lab", None)],
    );
    let app = App::new(tabs, Store::new(1));
    for kind in [Kind::Pods, Kind::Events, Kind::ConfigMaps, Kind::Secrets] {
        assert!(
            scope(&app, 0)
                .list_of(kind)
                .layout
                .columns
                .iter()
                .any(|column| column.id == ColumnId::Namespace && column.visible),
            "{kind:?}"
        );
    }
    let app = two_clusters();
    assert!(
        !scope(&app, 0)
            .list_of(Kind::Pods)
            .layout
            .columns
            .iter()
            .any(|column| column.id == ColumnId::Namespace && column.visible)
    );
}

// ── What holds whatever is open ────────────────────────────────────────

#[test]
fn control_c_leaves_whatever_is_open() {
    let leave = KeyEvent {
        control: true,
        ..KeyEvent::plain(KeyCode::Char('c'))
    };
    let mut app = stocked();
    assert_eq!(app.handle_key(leave), AppAction::Quit);
    let mut app = stocked();
    press(&mut app, KeyCode::Char('?'));
    assert!(app.shell.help_open);
    assert_eq!(app.handle_key(leave), AppAction::Quit);
    let mut app = stocked();
    press(&mut app, KeyCode::Char('/'));
    assert_eq!(app.handle_key(leave), AppAction::Quit);
}

#[test]
fn the_help_takes_every_key_and_a_released_one_does_nothing() {
    let mut app = stocked();
    press(&mut app, KeyCode::Char('?'));
    assert_eq!(press(&mut app, KeyCode::Char('5')), AppAction::Nothing);
    assert!(!app.shell.help_open);
    assert_eq!(app.tab, 0, "the key only closed the help");
    let released = KeyEvent {
        pressed: false,
        ..KeyEvent::plain(KeyCode::Char('5'))
    };
    assert_eq!(app.handle_key(released), AppAction::Nothing);
    assert_eq!(app.tab, 0);
}

#[test]
fn leaving_a_scope_tab_hides_the_value_it_showed() {
    let mut app = stocked();
    press(&mut app, KeyCode::Char('s'));
    app.screens[0]
        .scope_mut()
        .unwrap()
        .refilter(&app.store.scopes[0]);
    let asked = press(&mut app, KeyCode::Enter);
    let AppAction::Kube(Request::SecretValue { object, key, .. }) = asked else {
        panic!("expected a read, got {asked:?}");
    };
    app.apply_kube(
        Event::SecretValue {
            scope: 0,
            object,
            key,
            copy: false,
            value: Ok(Secret::new("hunter2")),
        },
        today(),
    );
    assert!(scope(&app, 0).revealed_here(&app.store.scopes[0]).is_some());
    app.switch_to(1);
    app.switch_to(0);
    assert!(scope(&app, 0).revealed_here(&app.store.scopes[0]).is_none());
}

#[test]
fn two_values_are_copied_under_one_label() {
    let mut labels = Vec::new();
    for value in ["hunter2", "correct horse"] {
        let mut app = stocked();
        press(&mut app, KeyCode::Char('s'));
        app.screens[0]
            .scope_mut()
            .unwrap()
            .refilter(&app.store.scopes[0]);
        let asked = press(&mut app, KeyCode::Char('y'));
        let AppAction::Kube(Request::SecretValue { object, key, .. }) = asked else {
            panic!("expected a read, got {asked:?}");
        };
        let copied = app.apply_kube(
            Event::SecretValue {
                scope: 0,
                object,
                key,
                copy: true,
                value: Ok(Secret::new(value)),
            },
            today(),
        );
        let AppAction::Copy { text, label } = copied else {
            panic!("expected a copy, got {copied:?}");
        };
        assert_eq!(text, value);
        labels.push(label);
    }
    assert_eq!(labels[0], labels[1]);
}

#[test]
fn what_another_build_left_in_the_session_is_still_there_when_it_is_written_again() {
    let mut read = Session::default();
    let future = SessionColumn {
        key: "from_the_future".into(),
        width: Some(9),
        visible: Some(false),
    };
    read.tab("secrets").columns = vec![
        SessionColumn {
            key: "name".into(),
            width: Some(33),
            visible: Some(true),
        },
        future.clone(),
    ];
    read.tab("staging/blue").kind = Some("nodes".into());

    let mut app = azure_only();
    app.restore(&read);
    app.screens[0].secrets_mut().unwrap().layout.columns[0].width = 41;
    let written = app.session().carrying(&read);
    let held = written.get("secrets").unwrap();
    assert_eq!(held.columns.last(), Some(&future), "carried");
    assert_eq!(held.columns[0].width, Some(41), "what is known is this run's");
    assert_eq!(
        held.columns.iter().filter(|line| line.key == "name").count(),
        1
    );
    assert_eq!(
        written.get("staging/blue"),
        read.get("staging/blue"),
        "and so is a tab that is not open here"
    );
    assert_eq!(written.tab, app.session().tab);
    assert_eq!(
        written.carrying(&read),
        written,
        "carried once, not once a run"
    );

    // Put back, it changes nothing.
    let mut plain = azure_only();
    plain.restore(&app.session());
    let mut carried = azure_only();
    carried.restore(&written);
    assert_eq!(plain.session(), carried.session());
}

#[test]
fn over_a_run_a_follow_is_said_exactly_when_the_wish_changes() {
    let mut app = stocked();
    let mut told: Option<String> = None;
    let mut said = 0;
    for (code, wanted) in [
        (KeyCode::Char('k'), None),
        (KeyCode::Enter, Some("orders-api-7d9f5b-abc12")),
        (KeyCode::Char('z'), Some("orders-api-7d9f5b-abc12")),
        (KeyCode::Tab, Some("orders-api-7d9f5b-abc12")),
        (KeyCode::Char('j'), Some("orders-api-7d9f5b-def34")),
        (KeyCode::Char('?'), Some("orders-api-7d9f5b-def34")),
        (KeyCode::Esc, Some("orders-api-7d9f5b-def34")),
        (KeyCode::Char('5'), None),
        (KeyCode::Char('6'), None),
        (KeyCode::Char('1'), Some("orders-api-7d9f5b-def34")),
        (KeyCode::Char('m'), None),
        (KeyCode::Char('p'), None),
    ] {
        let pressed = press(&mut app, code);
        assert!(
            !matches!(
                pressed,
                AppAction::Kube(Request::Follow(_) | Request::Unfollow)
            ),
            "a key says nothing of logs: {code:?}"
        );
        app.refilter(today());
        for _ in 0..3 {
            let now = told.clone();
            match follow_tick(&mut app) {
                Some(Request::Follow(target)) => {
                    assert_ne!(Some(target.key.name.clone()), now, "{code:?}");
                    told = Some(target.key.name);
                    said += 1;
                }
                Some(request) => {
                    assert_eq!(request, Request::Unfollow);
                    assert!(now.is_some(), "{code:?}");
                    told = None;
                    said += 1;
                }
                None => {}
            }
            assert_eq!(told.as_deref(), wanted, "{code:?}");
        }
    }
    assert_eq!(said, 5);
}

#[test]
fn a_run_has_back_every_tables_kind_sort_and_columns_and_nothing_else() {
    let mut app = two_clusters();
    press(&mut app, KeyCode::Char('2'));
    press(&mut app, KeyCode::Char('e'));
    for at in 0..4 {
        let list = app.screens[at].scope_mut().unwrap().list_of_mut(Kind::Pods);
        list.sort = ColumnId::Restarts;
        list.descending = at % 2 == 0;
        list.layout.columns[at].width = 50 + at as u16;
        list.layout.columns[at].visible = false;
        list.input.set_text("left behind");
    }
    {
        let held = app.screens[4].secrets_mut().unwrap();
        held.sort = ColumnId::Expires;
        held.descending = true;
        held.layout.columns[0].width = 60;
        held.input.set_text("left behind");
    }
    {
        let held = app.screens[5].registries_mut().unwrap();
        held.repositories.sort = ColumnId::Created;
        held.repositories.descending = false;
        held.repositories.layout.columns[1].visible = false;
    }
    let mut fresh = two_clusters();
    fresh.restore(&app.session());
    assert_eq!(fresh.tab, app.tab);
    for at in 0..4 {
        let (was, now) = (scope(&app, at), scope(&fresh, at));
        assert_eq!(now.kind, was.kind);
        let (was, now) = (was.list_of(Kind::Pods), now.list_of(Kind::Pods));
        assert_eq!((now.sort, now.descending), (was.sort, was.descending));
        assert_eq!(columns(&now.layout.columns), columns(&was.layout.columns));
        assert!(now.input.is_empty());
    }
    let (was, now) = (secrets(&app, 4), secrets(&fresh, 4));
    assert_eq!((now.sort, now.descending), (was.sort, was.descending));
    assert_eq!(columns(&now.layout.columns), columns(&was.layout.columns));
    assert!(now.input.is_empty());
    let (was, now) = (
        &registries(&app, 5).repositories,
        &registries(&fresh, 5).repositories,
    );
    assert_eq!((now.sort, now.descending), (was.sort, was.descending));
    assert_eq!(columns(&now.layout.columns), columns(&was.layout.columns));
}

#[test]
fn the_words_of_a_frame() {
    let mut app = stocked();
    assert_eq!(app.tab_label(0, today()), "1 qa/dev \u{2717} 1");
    assert_eq!(app.tab_label(4, today()), "5 Secrets");
    assert_eq!(
        app.menu_texts(Menu::Kind),
        ["\u{2713} Pods", "  Events", "  ConfigMaps", "  Secrets"]
    );
    assert_eq!(
        app.menu_texts(Menu::Env),
        ["\u{2713} All", "  dev", "  qa", "  prod"]
    );
    app.refilter(today());
    press(&mut app, KeyCode::Char('x'));
    let modal = scope(&app, 0).modal.as_ref().unwrap().lines();
    assert_eq!(modal[0], "Restart pod");
    assert_eq!(modal[1], "Restart orders-api-7d9f5b-abc12?");
    assert_eq!(
        modal.last().map(String::as_str),
        Some("x again to restart it")
    );
    let bare = Pod {
        owner: None,
        ..pod("qa", "dev", "debug-shell", "Running")
    };
    assert_eq!(owner_line(&bare, None), None);
    assert_eq!(
        owner_line(&pod("qa", "dev", "a", "Running"), None).as_deref(),
        Some("Deployment/orders-api")
    );
    assert_eq!(
        owner_line(
            &pod("qa", "dev", "a", "Running"),
            Some(Replicas {
                desired: 12,
                ready: 3
            })
        )
        .as_deref(),
        Some("Deployment/orders-api · 3/12 ready")
    );
}

#[test]
fn whatever_a_run_has_been_through_its_layout_comes_back() {
    let mut app = stocked();
    for code in [
        KeyCode::Char('S'),
        KeyCode::Char('R'),
        KeyCode::Enter,
        KeyCode::Esc,
        KeyCode::Char('2'),
        KeyCode::Char('m'),
        KeyCode::Char('5'),
        KeyCode::Char('S'),
        KeyCode::Char('6'),
        KeyCode::Char('R'),
        KeyCode::Char('4'),
        KeyCode::Char('s'),
    ] {
        app.refilter(today());
        press(&mut app, code);
        app.tick(0, today());
    }
    app.apply_kube(
        Event::Pods {
            scope: 0,
            pods: Ok(vec![pod("qa", "dev", "brand-new", "Running")]),
        },
        today(),
    );
    // A file from elsewhere in between, with a width and a hidden column.
    let mut other = Session::default();
    other.tab("qa/dev").columns = vec![SessionColumn {
        key: "status".into(),
        width: Some(17),
        visible: Some(false),
    }];
    app.restore(&other);

    let opened = two_clusters();
    let mut fresh = two_clusters();
    fresh.restore(&app.session());
    assert_eq!(fresh.tab, 3);
    assert_eq!(fresh.session(), app.session());
    for at in 0..4 {
        let (was, now) = (scope(&app, at), scope(&fresh, at));
        assert_eq!(now.kind, was.kind);
        let ids = |screen: &ScopeScreen| -> Vec<ColumnId> {
            columns(&screen.list_of(Kind::Pods).layout.columns)
                .into_iter()
                .map(|(id, _, _)| id)
                .collect()
        };
        assert_eq!(ids(now), ids(scope(&opened, at)), "the columns it opened with");
        let (was, now) = (was.list_of(Kind::Pods), now.list_of(Kind::Pods));
        assert_eq!((now.sort, now.descending), (was.sort, was.descending));
        assert_eq!(columns(&now.layout.columns), columns(&was.layout.columns));
        assert_eq!(now.cursor.index, 0);
    }
    assert!(columns(&scope(&fresh, 0).list_of(Kind::Pods).layout.columns)
        .contains(&(ColumnId::Status, false, 17)));
    assert_eq!(scope(&fresh, 3).kind, Kind::Secrets);
    assert_eq!(secrets(&fresh, 4).sort, secrets(&app, 4).sort);
    assert_eq!(
        registries(&fresh, 5).repositories.descending,
        registries(&app, 5).repositories.descending
    );
}

#[test]
fn an_app_starts_on_its_first_tab_with_every_screen_as_it_opens() {
    let app = two_clusters();
    assert_eq!(app.tab, 0);
    assert_eq!(app.screens.len(), app.tabs.len());
    assert!(app.following.is_none());
    for at in 0..4 {
        assert_eq!(scope(&app, at).kind, Kind::Pods);
        let list = scope(&app, at).list_of(Kind::Pods);
        let mut ids: Vec<String> = list
            .layout
            .columns
            .iter()
            .map(|column| column.id.key().to_owned())
            .collect();
        let count = ids.len();
        ids.sort();
        ids.dedup();
        assert_eq!(ids.len(), count, "each column once");
    }
}
