use std::cmp::Ordering;

use az_tui::app::list::{ListState, Row};
use az_tui::columns::ColumnId;
use az_tui::kube::{ConfigMap, Container, K8sEvent, Kind, ObjectRef, Pod, PodKey};
use az_tui::timestamp::Timestamp;

fn pod(cluster: &str, namespace: &str, name: &str, status: &str) -> Pod {
    Pod {
        key: PodKey {
            cluster: cluster.to_owned(),
            namespace: namespace.to_owned(),
            name: name.to_owned(),
        },
        status: status.to_owned(),
        ready: (1, 1),
        restarts: 0,
        node: "aks-np1".to_owned(),
        ip: "10.0.0.1".to_owned(),
        owner: Some(("Deployment".to_owned(), "orders-api".to_owned())),
        app: Some("orders-api".to_owned()),
        containers: vec![Container {
            name: "api".to_owned(),
            image: "acrprod.azurecr.io/orders-api:1.2.3".to_owned(),
            ready: true,
            restarts: 0,
        }],
        created: Timestamp::parse("2026-09-11T20:00:00Z"),
    }
}

fn crashing(cluster: &str, namespace: &str, name: &str) -> Pod {
    Pod {
        ready: (0, 1),
        restarts: 7,
        ..pod(cluster, namespace, name, "CrashLoopBackOff")
    }
}

fn event(name: &str, last: Option<&str>, kind: &str, reason: &str, object: &str, count: u64) -> K8sEvent {
    K8sEvent {
        namespace: "dev".to_owned(),
        name: name.to_owned(),
        kind: kind.to_owned(),
        reason: reason.to_owned(),
        object: ObjectRef {
            kind: "pod".to_owned(),
            namespace: "dev".to_owned(),
            name: object.to_owned(),
        },
        message: "said".to_owned(),
        count,
        last: last.and_then(Timestamp::parse),
    }
}

fn configmap(name: &str, data: &[(&str, &str)]) -> ConfigMap {
    ConfigMap {
        namespace: "dev".to_owned(),
        name: name.to_owned(),
        data: data
            .iter()
            .map(|(key, value)| ((*key).to_owned(), (*value).to_owned()))
            .collect(),
        created: None,
    }
}


fn pods() -> Vec<Pod> {
    let mut old = pod("qa", "dev", "billing-worker-1a2b3c-old01", "Completed");
    old.created = Timestamp::parse("2026-01-01T00:00:00Z");
    old.owner = Some(("Job".to_owned(), "billing-worker".to_owned()));
    old.ready = (0, 1);
    vec![
        pod("qa", "dev", "orders-api-7d9f5b-k9x2p", "Running"),
        crashing("qa", "dev", "orders-api-7d9f5b-abc12"),
        old,
    ]
}

fn names(list: &ListState, rows: &[Pod]) -> Vec<String> {
    list.visible()
        .iter()
        .map(|at| rows[*at].key.name.clone())
        .collect()
}

#[test]
fn the_table_opens_by_name_and_a_query_narrows_it_by_word_and_by_field() {
    let rows = pods();
    let mut list = ListState::new(Kind::Pods, ColumnId::Name);
    list.refilter(&rows);
    assert_eq!(
        names(&list, &rows),
        [
            "billing-worker-1a2b3c-old01",
            "orders-api-7d9f5b-abc12",
            "orders-api-7d9f5b-k9x2p"
        ]
    );
    list.input.set_text("status:crash");
    list.refilter(&rows);
    assert_eq!(names(&list, &rows), ["orders-api-7d9f5b-abc12"]);
    list.input.set_text("orders-api:1.2.3");
    list.refilter(&rows);
    assert_eq!(names(&list, &rows).len(), 3, "an image reference is a word");
    list.input.set_text("owner:billing");
    list.refilter(&rows);
    assert_eq!(names(&list, &rows), ["billing-worker-1a2b3c-old01"]);
    list.input.set_text("app:orders-api k9x");
    list.refilter(&rows);
    assert_eq!(names(&list, &rows), ["orders-api-7d9f5b-k9x2p"]);
    list.input.set_text("nothing-like-this");
    list.refilter(&rows);
    assert!(names(&list, &rows).is_empty());
    assert_eq!(list.status(rows.len()), "0/3 · Name ↑");
}

#[test]
fn a_header_click_sorts_by_the_column_and_age_puts_the_newest_first() {
    let rows = pods();
    let mut list = ListState::new(Kind::Pods, ColumnId::Name);
    list.sort_by(ColumnId::Restarts, ColumnId::Name);
    list.refilter(&rows);
    assert_eq!(names(&list, &rows)[0], "billing-worker-1a2b3c-old01");
    list.sort_by(ColumnId::Restarts, ColumnId::Name);
    list.refilter(&rows);
    assert_eq!(
        names(&list, &rows)[0],
        "orders-api-7d9f5b-abc12",
        "the same header again turns it round"
    );
    list.sort_by(ColumnId::Restarts, ColumnId::Name);
    assert_eq!(list.sort, ColumnId::Name, "and a third time is the default");
    list.sort_by(ColumnId::Age, ColumnId::Name);
    list.refilter(&rows);
    assert_eq!(
        names(&list, &rows).last().map(String::as_str),
        Some("billing-worker-1a2b3c-old01"),
        "the oldest last"
    );
    list.sort_by(ColumnId::Ready, ColumnId::Name);
    list.refilter(&rows);
    assert_eq!(
        names(&list, &rows)[2],
        "orders-api-7d9f5b-k9x2p",
        "1/1 after the 0/1s"
    );
}

#[test]
fn name_turned_round_puts_the_last_name_first_in_every_namespace() {
    let mut rows = pods();
    rows.push(pod("qa", "zzz", "aardvark-0", "Running"));
    let mut list = ListState::new(Kind::Pods, ColumnId::Name);
    list.sort_by(ColumnId::Name, ColumnId::Name);
    assert!(list.descending);
    list.refilter(&rows);
    let shown = names(&list, &rows);
    assert_eq!(shown[0], "orders-api-7d9f5b-k9x2p");
    assert_eq!(shown[3], "aardvark-0", "by name, not by namespace");
}

#[test]
fn a_re_read_leaves_the_cursor_on_the_row_it_was_on_and_select_finds_a_hidden_one() {
    let mut rows = pods();
    let mut list = ListState::new(Kind::Pods, ColumnId::Name);
    list.refilter(&rows);
    list.cursor.focus(2);
    let was = list.cursor_identity(&rows);
    assert_eq!(was.as_deref(), Some("dev/orders-api-7d9f5b-k9x2p"));

    rows.insert(0, pod("qa", "dev", "orders-api-7d9f5b-aaa01", "Running"));
    rows.remove(3);
    list.invalidate();
    list.keep_cursor(&rows, was);
    assert_eq!(list.cursor.index, 2);
    assert_eq!(
        list.cursor_identity(&rows).as_deref(),
        Some("dev/orders-api-7d9f5b-k9x2p")
    );

    list.input.set_text("aaa01");
    assert!(list.select(&rows, "dev/orders-api-7d9f5b-abc12"));
    assert!(list.input.is_empty(), "the query hid it, so the query went");
    assert_eq!(
        list.cursor_identity(&rows).as_deref(),
        Some("dev/orders-api-7d9f5b-abc12")
    );
    assert!(!list.select(&rows, "dev/nothing"));

    let was = list.cursor_identity(&rows);
    rows.clear();
    list.invalidate();
    list.keep_cursor(&rows, was);
    assert_eq!(list.cursor.index, 0);
    assert!(list.selected_index().is_none());
}

#[test]
fn events_open_newest_first_and_the_other_kinds_by_name() {
    let older = event("a", Some("2026-09-12T10:00:00Z"), "Normal", "Pulled", "p1", 2);
    let newer = event("b", Some("2026-09-12T12:00:00Z"), "Warning", "BackOff", "p2", 9);
    let rows = vec![older, newer];
    let mut list = ListState::new(Kind::Events, K8sEvent::default_sort());
    list.refilter(&rows);
    assert_eq!(*list.visible(), [1, 0], "newest first");
    list.input.set_text("type:warn");
    list.refilter(&rows);
    assert_eq!(*list.visible(), [1]);
    list.input.set_text("p1");
    list.refilter(&rows);
    assert_eq!(*list.visible(), [0], "the object's name is a word");
    list.input.clear();
    list.sort_by(ColumnId::Count, ColumnId::Age);
    list.refilter(&rows);
    assert_eq!(*list.visible(), [1, 0], "the most times first");

    let maps = vec![
        configmap("zeta", &[("K", "v")]),
        configmap("alpha", &[("LOG_LEVEL", "info"), ("B", "2")]),
    ];
    let mut list = ListState::new(Kind::ConfigMaps, ConfigMap::default_sort());
    list.refilter(&maps);
    assert_eq!(*list.visible(), [1, 0]);
    list.input.set_text("key:log");
    list.refilter(&maps);
    assert_eq!(*list.visible(), [1]);
    list.input.clear();
    list.sort_by(ColumnId::Keys, ColumnId::Name);
    list.refilter(&maps);
    assert_eq!(*list.visible(), [1, 0], "the most keys first");
}

#[test]
fn an_event_with_no_stamp_sorts_last_whichever_way_age_is_turned() {
    let stamped = event("a", Some("2026-09-12T10:00:00Z"), "Normal", "Pulled", "p1", 1);
    let unstamped = event("z", None, "Normal", "Pulled", "p2", 1);
    assert!(unstamped.last.is_none());
    let rows = vec![unstamped, stamped];
    let mut list = ListState::new(Kind::Events, K8sEvent::default_sort());
    list.refilter(&rows);
    assert_eq!(*list.visible(), [1, 0], "newest first, the unstamped last");
    list.sort_by(ColumnId::Age, ColumnId::Age);
    assert!(list.descending);
    list.refilter(&rows);
    assert_eq!(
        *list.visible(),
        [1, 0],
        "turned round, the unstamped is still last"
    );
}

#[test]
fn an_empty_cell_sorts_last_whichever_way_the_column_is_turned() {
    let placed = pod("qa", "dev", "b", "Running");
    let pending = Pod {
        node: String::new(),
        ..pod("qa", "dev", "a", "Pending")
    };
    for descending in [false, true] {
        assert_eq!(
            pending.compare(&placed, ColumnId::Node, descending),
            Ordering::Greater
        );
        assert_eq!(
            placed.compare(&pending, ColumnId::Node, descending),
            Ordering::Less
        );
    }
    assert_eq!(
        pending.compare(&pending, ColumnId::Node, true),
        Ordering::Equal
    );
    let rows = vec![pending, placed];
    let mut list = ListState::new(Kind::Pods, ColumnId::Name);
    list.sort_by(ColumnId::Node, ColumnId::Name);
    list.refilter(&rows);
    assert_eq!(names(&list, &rows), ["b", "a"]);
    list.sort_by(ColumnId::Node, ColumnId::Name);
    list.refilter(&rows);
    assert_eq!(names(&list, &rows), ["b", "a"], "turned, and still last");
}

#[test]
fn a_row_that_is_not_there_leaves_the_query_and_the_cursor_alone() {
    let rows = pods();
    let mut list = ListState::new(Kind::Pods, ColumnId::Name);
    list.input.set_text("orders-api");
    list.refilter(&rows);
    list.cursor.focus(1);
    let was = list.cursor_identity(&rows);
    let shown = names(&list, &rows);
    assert!(!list.select(&rows, "dev/nothing"));
    assert_eq!(list.input.text(), "orders-api");
    assert_eq!(names(&list, &rows), shown);
    assert_eq!(list.cursor.index, 1);
    assert_eq!(list.cursor_identity(&rows), was);

    list.input.set_text("aaa01");
    assert!(!list.select(&rows, "dev/nothing"));
    assert_eq!(list.input.text(), "aaa01");

    let none: Vec<Pod> = Vec::new();
    let mut list = ListState::new(Kind::Pods, ColumnId::Name);
    list.input.set_text("aaa01");
    assert!(!list.select(&none, "dev/nothing"));
    assert_eq!(list.input.text(), "aaa01");
}
