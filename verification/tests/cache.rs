use az_tui::app::screen::{tabs, Tab};
use az_tui::azure::{Inventory, Registry, Repository, SecretRow, Vault};
use az_tui::cache::{fresh, from_cache, CachedTab, Snapshot, VERSION};
use az_tui::columns::{environment_columns, ColumnId, TableLayout};
use az_tui::config::{Scope, ScopeTab, REGISTRIES_TAB, SECRETS_TAB};
use az_tui::kube::{Container, Pod, PodKey};
use az_tui::session::{
    apply_columns, columns_of, read_sort, sort_of, Session, SessionColumn,
};
use az_tui::store::Store;
use az_tui::timestamp::Timestamp;

fn ts(raw: &str) -> Timestamp {
    Timestamp::parse(raw).unwrap()
}

fn inventory() -> Inventory {
    Inventory {
        vaults: vec![Vault {
            id: "/id".into(),
            name: "kv-prod".into(),
            resource_group: "rg".into(),
            location: "eastus".into(),
            uri: "https://kv-prod.vault.azure.net/".into(),
        }],
        registries: vec![Registry {
            id: "/registry".into(),
            name: "acrprod".into(),
            resource_group: "rg".into(),
            location: "eastus".into(),
            login_server: "acrprod.azurecr.io".into(),
        }],
    }
}

fn secret() -> SecretRow {
    SecretRow {
        vault: "kv-prod".into(),
        name: "db-password".into(),
        enabled: true,
        created: Some(ts("2026-03-01T00:00:00Z")),
        updated: None,
        expires: None,
        not_before: None,
        content_type: Some("text/plain".into()),
        tags: vec![("env".into(), "prod".into())],
        managed: false,
    }
}

fn repository() -> Repository {
    Repository::unfilled("acrprod", "payments-api")
}

fn pod() -> Pod {
    Pod {
        key: PodKey {
            cluster: "qa".into(),
            namespace: "dev".into(),
            name: "orders-api-7d9f5b-abc12".into(),
        },
        status: "Running".into(),
        ready: (1, 1),
        restarts: 0,
        node: "aks-np1".into(),
        ip: "10.0.0.1".into(),
        owner: Some(("Deployment".into(), "orders-api".into())),
        app: None,
        containers: vec![Container {
            name: "api".into(),
            image: "acrprod.azurecr.io/orders-api:1.2.3".into(),
            ready: true,
            restarts: 0,
        }],
        created: None,
    }
}

fn scope(namespace: &str) -> ScopeTab {
    ScopeTab {
        label: namespace.to_owned(),
        scope: Scope {
            cluster: "qa".into(),
            context: "aks-qa".into(),
            namespace: Some(namespace.to_owned()),
        },
    }
}

fn read() -> Store {
    let mut store = Store::new(2);
    store.azure.inventory = inventory();
    store.azure.secrets = vec![secret()];
    store.azure.repositories = vec![repository()];
    store.azure.read_at = Some(ts("2026-09-11T20:00:00Z"));
    store.scopes[0]
        .pods
        .put(Ok(vec![pod()]), ts("2026-09-11T20:00:05Z"));
    store
}

fn bar() -> Vec<Tab> {
    tabs(vec![scope("dev"), scope("test")])
}

#[test]
fn every_tab_that_was_read_is_on_file_under_its_key_and_no_other_is() {
    let snapshot = read().snapshot(&bar());
    let keys: Vec<&str> = snapshot.tabs.iter().map(|(key, _)| key.as_str()).collect();
    assert_eq!(keys, ["qa/dev", SECRETS_TAB, REGISTRIES_TAB]);
    match snapshot.get("qa/dev") {
        Some(CachedTab::Scope { read_at, pods }) => {
            assert_eq!(*read_at, ts("2026-09-11T20:00:05Z"));
            assert_eq!(*pods, [pod()]);
        }
        other => panic!("expected a scope tab, got {other:?}"),
    }
    match snapshot.get(SECRETS_TAB) {
        Some(CachedTab::Secrets {
            read_at,
            vaults,
            secrets,
        }) => {
            assert_eq!(*read_at, ts("2026-09-11T20:00:00Z"));
            assert_eq!(*vaults, inventory().vaults);
            assert_eq!(*secrets, [secret()]);
        }
        other => panic!("expected the secrets tab, got {other:?}"),
    }
    match snapshot.get(REGISTRIES_TAB) {
        Some(CachedTab::Registries {
            registries,
            repositories,
            ..
        }) => {
            assert_eq!(*registries, inventory().registries);
            assert_eq!(*repositories, [repository()]);
        }
        other => panic!("expected the registries tab, got {other:?}"),
    }
    assert!(snapshot.get("qa/test").is_none());
    assert!(Store::new(2).snapshot(&bar()).tabs.is_empty());
}

#[test]
fn the_later_of_two_tabs_under_one_key_is_on_file() {
    let mut store = read();
    store.scopes[1].pods.put(Ok(Vec::new()), ts("2026-09-11T21:00:00Z"));
    let snapshot = store.snapshot(&tabs(vec![scope("dev"), scope("dev")]));
    assert_eq!(snapshot.tabs.len(), 3);
    assert_eq!(
        snapshot.get("qa/dev").map(CachedTab::read_at),
        Some(ts("2026-09-11T21:00:00Z"))
    );
}

#[test]
fn the_next_start_paints_what_was_read() {
    let mut secrets = None;
    let mut registries = None;
    for (key, tab) in read().snapshot(&bar()).tabs {
        if key == SECRETS_TAB {
            secrets = Some(tab);
        } else if key == REGISTRIES_TAB {
            registries = Some(tab);
        }
    }
    let next = from_cache(secrets, registries);
    assert_eq!(next.inventory, inventory());
    assert_eq!(next.secrets, [secret()]);
    assert_eq!(next.repositories, [repository()]);
    assert_eq!(next.read_at, Some(ts("2026-09-11T20:00:00Z")));
    assert!(!next.refreshing);
}

#[test]
fn a_store_is_as_old_as_the_older_of_its_two_tabs() {
    let [(_, secrets), _] = CachedTab::azure(
        ts("2026-09-11T20:00:00Z"),
        inventory(),
        vec![secret()],
        Vec::new(),
    );
    let [_, (_, registries)] = CachedTab::azure(
        ts("2026-09-11T19:00:00Z"),
        inventory(),
        Vec::new(),
        vec![repository()],
    );
    let store = from_cache(Some(secrets), Some(registries));
    assert_eq!(store.read_at, Some(ts("2026-09-11T19:00:00Z")));
    let nothing = from_cache(None, None);
    assert_eq!(nothing.read_at, None);
    assert!(nothing.secrets.is_empty());
}

#[test]
fn a_version_this_build_does_not_know_is_not_there() {
    assert!(Snapshot::new(Vec::new()).known().is_some());
    let newer = Snapshot {
        version: VERSION + 1,
        tabs: Vec::new(),
    };
    assert!(newer.known().is_none());
}

#[test]
fn what_was_read_is_an_answer_for_so_long() {
    let read_at = ts("2026-09-11T20:00:00Z");
    assert!(fresh(read_at, 60, ts("2026-09-11T20:00:59Z")));
    assert!(!fresh(read_at, 60, ts("2026-09-11T20:01:00Z")));
    assert!(!fresh(read_at, 60, ts("2026-09-11T19:59:59Z")), "from ahead");
    assert!(fresh(read_at, 0, ts("2030-01-01T00:00:00Z")), "for good");
}

#[test]
fn a_sort_and_the_columns_survive_the_session_file() {
    for descending in [false, true] {
        let sort = sort_of(ColumnId::Updated, descending);
        assert_eq!(read_sort(&Some(sort)), Some((ColumnId::Updated, descending)));
    }
    assert_eq!(
        read_sort(&Some(("no-such".to_owned(), "asc".to_owned()))),
        None
    );
    let mut layout = TableLayout::new(&environment_columns());
    layout.set_visible(ColumnId::Created, true);
    let held = columns_of(&layout);
    let mut fresh_layout = TableLayout::new(&environment_columns());
    apply_columns(&mut fresh_layout, &held);
    assert_eq!(fresh_layout.columns, layout.columns);
    apply_columns(
        &mut fresh_layout,
        &vec![SessionColumn {
            key: "no-such".to_owned(),
            width: Some(3),
            visible: Some(false),
        }],
    );
    assert_eq!(fresh_layout.columns, layout.columns);
}

#[test]
fn a_tab_of_the_session_is_made_where_it_is_first_asked_for() {
    let mut session = Session::default();
    assert!(session.get("secrets").is_none());
    session.tab("secrets").kind = Some("pods".to_owned());
    assert_eq!(
        session.get("secrets").and_then(|tab| tab.kind.as_deref()),
        Some("pods")
    );
    session.tab("secrets").kind = None;
    assert_eq!(session.tabs.len(), 1, "a key stands once");
}
