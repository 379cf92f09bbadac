use az_tui::app::pane::{PaneText, LOG_LINE_CAP};
use az_tui::app::scope::ScopeScreen;
use az_tui::app::screen::{AppAction, Target};
use az_tui::app::secrets::REVEAL_FOR;
use az_tui::app::shell::{Focus, Shell};
use az_tui::azure::Secret;
use az_tui::config::{Scope, ScopeTab};
use az_tui::input::{KeyCode, KeyEvent};
use az_tui::kube::{
    ConfigMap, Container, K8sEvent, Kind, LogFollow, ObjectRef, Pod, PodKey, Request, SecretMeta,
    TextKind,
};
use az_tui::store::ScopeData;
use az_tui::timestamp::Timestamp;

fn ts(raw: &str) -> Timestamp {
    Timestamp::parse(raw).unwrap()
}

fn key(cluster: &str, namespace: &str, name: &str) -> PodKey {
    PodKey {
        cluster: cluster.to_owned(),
        namespace: namespace.to_owned(),
        name: name.to_owned(),
    }
}

fn pod(cluster: &str, namespace: &str, name: &str, status: &str) -> Pod {
    Pod {
        key: key(cluster, namespace, name),
        status: status.to_owned(),
        ready: (1, 1),
        restarts: 0,
        node: "aks-np1".to_owned(),
        ip: "10.0.0.1".to_owned(),
        owner: Some(("Deployment".to_owned(), "orders-api".to_owned())),
        app: Some("orders-api".to_owned()),
        containers: vec![Container {
            name: "api".to_owned(),
            image: "acrprod.azurecr.io/orders-api:1.2.3".to_owned(),
            ready: true,
            restarts: 0,
        }],
        created: Some(ts("2026-09-11T20:00:00Z")),
    }
}

fn crashing(cluster: &str, namespace: &str, name: &str) -> Pod {
    Pod {
        ready: (0, 1),
        restarts: 7,
        ..pod(cluster, namespace, name, "CrashLoopBackOff")
    }
}

fn event(
    name: &str,
    last: &str,
    kind: &str,
    reason: &str,
    object: (&str, &str),
    count: u64,
    message: &str,
) -> K8sEvent {
    K8sEvent {
        namespace: "dev".to_owned(),
        name: name.to_owned(),
        kind: kind.to_owned(),
        reason: reason.to_owned(),
        object: ObjectRef {
            kind: object.0.to_owned(),
            namespace: "dev".to_owned(),
            name: object.1.to_owned(),
        },
        message: message.to_owned(),
        count,
        last: Some(ts(last)),
    }
}

fn configmap(name: &str, data: &[(&str, &str)]) -> ConfigMap {
    ConfigMap {
        namespace: "dev".to_owned(),
        name: name.to_owned(),
        data: data
            .iter()
            .map(|(key, value)| ((*key).to_owned(), (*value).to_owned()))
            .collect(),
        created: None,
    }
}

fn secret_meta(name: &str, kind: &str, keys: &[(&str, u64)]) -> SecretMeta {
    SecretMeta {
        namespace: "dev".to_owned(),
        name: name.to_owned(),
        kind: kind.to_owned(),
        keys: keys
            .iter()
            .map(|(key, bytes)| ((*key).to_owned(), *bytes))
            .collect(),
        created: None,
    }
}

fn data() -> ScopeData {
    let mut old = pod("qa", "dev", "billing-worker-1a2b3c-old01", "Completed");
    old.created = Timestamp::parse("2026-01-01T00:00:00Z");
    old.owner = Some(("Job".to_owned(), "billing-worker".to_owned()));
    old.ready = (0, 1);
    let mut data = ScopeData::default();
    data.pods.rows = vec![
        pod("qa", "dev", "orders-api-7d9f5b-k9x2p", "Running"),
        crashing("qa", "dev", "orders-api-7d9f5b-abc12"),
        old,
    ];
    data.events.rows = vec![
        event(
            "w1",
            "2026-09-12T12:00:00Z",
            "Warning",
            "BackOff",
            ("pod", "orders-api-7d9f5b-abc12"),
            9,
            "Back-off restarting failed container",
        ),
        event(
            "n1",
            "2026-09-12T11:00:00Z",
            "Normal",
            "ScalingReplicaSet",
            ("deployment", "orders-api"),
            1,
            "Scaled up replica set",
        ),
    ];
    data.configmaps.rows = vec![configmap(
        "orders-config",
        &[("APP_YAML", "a: 1\nb: 2\n"), ("LOG_LEVEL", "info")],
    )];
    data.secrets.rows = vec![secret_meta("db", "Opaque", &[("password", 7), ("user", 5)])];
    data
}

fn tab() -> ScopeTab {
    ScopeTab {
        label: "qa/dev".to_owned(),
        scope: Scope {
            cluster: "qa".to_owned(),
            context: "aks-qa".to_owned(),
            namespace: Some("dev".to_owned()),
        },
    }
}

fn secret_object() -> ObjectRef {
    ObjectRef {
        kind: "secret".to_owned(),
        namespace: "dev".to_owned(),
        name: "db".to_owned(),
    }
}

#[test]
fn each_kind_keeps_its_own_list_and_a_switch_drops_the_pane() {
    let data = data();
    let mut screen = ScopeScreen::new(false);
    screen.refilter(&data);
    screen.list_mut().input.set_text("abc12");
    screen.refilter(&data);
    assert_eq!(screen.list().visible().len(), 1);
    screen.toggle_log();
    screen.set_kind(Kind::Events);
    assert!(!screen.pane.open, "the pane was the pods'");
    screen.refilter(&data);
    assert_eq!(
        screen.list().visible().len(),
        2,
        "its own list, its own search"
    );
    assert_eq!(screen.status(&data), "2 · Age ↑");
    assert_eq!(
        screen.selected_object(&data).map(|object| object.slash()),
        Some("pod/orders-api-7d9f5b-abc12".to_owned()),
        "newest first: the warning"
    );
    screen.set_kind(Kind::Pods);
    screen.refilter(&data);
    assert_eq!(screen.list().input.text(), "abc12", "as it was left");
    assert_eq!(screen.log_target(0, &data), None, "closed on the way out");
}

#[test]
fn e_narrows_the_events_to_the_pod_and_enter_on_an_event_goes_back_to_it() {
    let data = data();
    let mut screen = ScopeScreen::new(false);
    let mut shell = Shell::default();
    screen.refilter(&data);
    screen.list_mut().cursor.focus(1); // orders-api-7d9f5b-abc12
    screen.events_for_selected_pod(&data);
    assert_eq!(screen.kind, Kind::Events);
    assert_eq!(screen.list().input.text(), "orders-api-7d9f5b-abc12");
    screen.refilter(&data);
    assert_eq!(screen.list().visible().len(), 1);

    screen.list_mut().input.clear();
    screen.refilter(&data);
    screen.list_mut().cursor.focus(1); // the deployment's event
    screen.jump_to_object(&mut shell, &data);
    assert_eq!(screen.kind, Kind::Events, "not a pod");
    assert!(
        shell
            .notification()
            .is_some_and(|(said, _)| said.contains("not a pod"))
    );
    screen.list_mut().cursor.focus(0);
    screen.list_of_mut(Kind::Pods).input.set_text("k9x2p");
    screen.jump_to_object(&mut shell, &data);
    assert_eq!(screen.kind, Kind::Pods);
    assert!(
        screen.list().input.is_empty(),
        "the query hid it, so it went"
    );
    assert_eq!(
        screen.selected_pod(&data).map(|pod| pod.key.name.as_str()),
        Some("orders-api-7d9f5b-abc12")
    );
    assert_eq!(
        screen.kubectl_line(&tab(), &data).as_deref(),
        Some("kubectl --context aks-qa -n dev logs -f orders-api-7d9f5b-abc12")
    );
}

#[test]
fn a_configmaps_keys_are_walked_in_the_details_and_a_value_shows_in_the_pane() {
    let data = data();
    let mut screen = ScopeScreen::new(false);
    let mut shell = Shell::default();
    screen.set_kind(Kind::ConfigMaps);
    screen.refilter(&data);
    assert_eq!(
        screen.keys(&data),
        [
            ("APP_YAML".to_owned(), "2 lines".to_owned()),
            ("LOG_LEVEL".to_owned(), "4 bytes".to_owned())
        ]
    );
    assert_eq!(screen.show_value(0, &data), None, "on file: nothing to ask");
    assert!(screen.pane.open && screen.pane.text == PaneText::Value);
    screen.sync_value(&data);
    assert_eq!(*screen.pane_value(), ["a: 1", "b: 2"]);

    shell.focus = Focus::Details;
    screen.handle_key(
        &shell,
        &data,
        KeyEvent::plain(KeyCode::Char('j')),
    );
    assert_eq!(screen.selected_key(&data).as_deref(), Some("LOG_LEVEL"));
    screen.close_pane();
    screen.sync_value(&data);
    screen.show_value(0, &data);
    screen.sync_value(&data);
    assert_eq!(*screen.pane_value(), ["info"]);
    assert_eq!(
        screen.copy_value(&mut shell, 0, &data),
        AppAction::Copy {
            text: "info".to_owned(),
            label: "Copied LOG_LEVEL of orders-config".to_owned()
        }
    );
    assert_eq!(
        screen.kubectl_line(&tab(), &data).as_deref(),
        Some("kubectl --context aks-qa -n dev get configmap/orders-config -o yaml")
    );
    screen.handle_click(&mut shell, Target::KeyRow(0));
    assert_eq!(screen.key_cursor, 0);
}

#[test]
fn a_secret_is_read_one_key_at_a_time_shown_for_sixty_seconds_and_copied_unseen() {
    let data = data();
    let mut screen = ScopeScreen::new(false);
    let mut shell = Shell::default();
    screen.set_kind(Kind::Secrets);
    screen.refilter(&data);
    assert_eq!(screen.keys(&data)[0].0, "password");
    let now: u64 = 0;

    // v: asked for, then shown, then gone at sixty seconds.
    let request = screen.show_value(0, &data);
    assert_eq!(
        request,
        Some(Request::SecretValue {
            scope: 0,
            object: secret_object(),
            key: "password".to_owned(),
            copy: false,
        })
    );
    assert!(screen.reading_here(&data));
    assert!(screen.is_ticking());
    let action = screen.on_secret_value(
        &mut shell,
        &data,
        secret_object(),
        "password".to_owned(),
        false,
        Ok(Secret::new("hunter2")),
    );
    assert_eq!(action, AppAction::Nothing);
    screen.sync_value(&data);
    assert_eq!(*screen.pane_value(), ["hunter2"]);
    assert!(screen.revealed_here(&data).unwrap().clears_in(now) >= 59);
    assert_eq!(screen.show_value(0, &data), None, "v again hides it");
    assert!(screen.revealed_here(&data).is_none());
    screen.show_value(0, &data);
    screen.on_secret_value(
        &mut shell,
        &data,
        secret_object(),
        "password".to_owned(),
        false,
        Ok(Secret::new("hunter2")),
    );
    screen.tick_reveal(REVEAL_FOR);
    assert!(screen.revealed_here(&data).is_none(), "gone at sixty");
    screen.sync_value(&data);
    assert!(screen.pane_value().is_empty());

    // y with nothing on screen: read for the clipboard alone.
    let action = screen.copy_value(&mut shell, 0, &data);
    assert!(matches!(
        action,
        AppAction::Kube(Request::SecretValue { copy: true, .. })
    ));
    let action = screen.on_secret_value(
        &mut shell,
        &data,
        secret_object(),
        "password".to_owned(),
        true,
        Ok(Secret::new("hunter2")),
    );
    assert_eq!(
        action,
        AppAction::Copy {
            text: "hunter2".to_owned(),
            label: "Copied password of db".to_owned()
        }
    );
    assert!(screen.revealed_here(&data).is_none(), "and nothing kept");

    // A refusal takes the value's place; a key left behind drops its
    // answer on the floor.
    screen.show_value(0, &data);
    screen.on_secret_value(
        &mut shell,
        &data,
        secret_object(),
        "password".to_owned(),
        false,
        Err("secrets \"db\" is forbidden".to_owned()),
    );
    assert_eq!(
        screen.refusal().map(String::as_str),
        Some("secrets \"db\" is forbidden")
    );
    screen.show_value(0, &data);
    screen.key_cursor = 1;
    screen.on_secret_value(
        &mut shell,
        &data,
        secret_object(),
        "password".to_owned(),
        false,
        Ok(Secret::new("hunter2")),
    );
    assert!(screen.revealed_here(&data).is_none());
    assert!(
        screen
            .kubectl_line(&tab(), &data)
            .unwrap()
            .ends_with("get secret db -o jsonpath='{.data.user}' | base64 -d")
    );
    // r drops everything the screen held.
    screen.on_refresh();
    assert!(!screen.is_ticking());
    let mut fresh = ScopeScreen::new(false);
    fresh.set_kind(Kind::Secrets);
    let no_keys = ScopeData::default();
    assert_eq!(fresh.copy_value(&mut shell, 0, &no_keys), AppAction::Nothing);
}

#[test]
fn the_log_pane_follows_the_pod_under_the_cursor_once_it_is_open_and_nothing_before() {
    let data = data();
    let mut screen = ScopeScreen::new(false);
    screen.refilter(&data);
    assert_eq!(
        screen.log_target(0, &data),
        None,
        "closed: nothing followed"
    );

    assert!(screen.toggle_log());
    let target = screen
        .log_target(0, &data)
        .expect("the pod under the cursor");
    assert_eq!(target.key.name, "billing-worker-1a2b3c-old01");
    assert_eq!(target.scope, 0);
    assert_eq!(target.container, None);
    screen.begin_follow(Some(target.clone()));

    screen.append_log(&target, vec!["starting".to_owned()], false);
    screen.append_log(&target, vec!["listening".to_owned()], false);
    assert_eq!(*screen.log_lines(), ["starting", "listening"]);
    assert!(screen.log_following());
    assert!(!screen.log_ended());
    let stale = LogFollow {
        key: key("prod", "prod", "other"),
        ..target.clone()
    };
    screen.append_log(&stale, vec!["not mine".to_owned()], false);
    assert_eq!(*screen.log_lines(), ["starting", "listening"]);
    screen.append_log(&target, Vec::new(), true);
    assert!(screen.log_ended(), "the stream said it was over");

    screen.list_mut().cursor.focus(1);
    let next = screen.log_target(0, &data).unwrap();
    assert_ne!(next.key, target.key);
    screen.begin_follow(Some(next));
    assert!(screen.log_lines().is_empty());
    assert!(!screen.log_ended());

    assert!(!screen.toggle_log(), "again closes it");
    assert_eq!(screen.log_target(0, &data), None);
}

#[test]
fn a_log_past_the_cap_keeps_the_tail_and_says_how_much_it_dropped() {
    let data = data();
    let mut screen = ScopeScreen::new(false);
    screen.refilter(&data);
    screen.toggle_log();
    let target = screen.log_target(0, &data).unwrap();
    screen.begin_follow(Some(target.clone()));
    let lines: Vec<String> = (1..=LOG_LINE_CAP + 10)
        .map(|line| format!("line {line}"))
        .collect();
    screen.append_log(&target, lines, false);
    let held = screen.log_lines();
    assert_eq!(held.len(), LOG_LINE_CAP, "the cap holds");
    assert!(held[0].contains("earlier lines skipped"), "{}", held[0]);
    assert_eq!(held.last().map(String::as_str), Some("line 20010"));
}

#[test]
fn c_moves_to_the_next_container_of_this_pod_only_and_p_asks_for_the_last_run() {
    let mut data = data();
    data.pods.rows[0].containers.push(Container {
        name: "istio-proxy".to_owned(),
        image: "docker.io/istio/proxyv2:1.20".to_owned(),
        ready: true,
        restarts: 0,
    });
    let mut screen = ScopeScreen::new(false);
    let mut shell = Shell::default();
    screen.refilter(&data);
    screen.list_mut().cursor.focus(2);
    screen.next_container(&mut shell, &data);
    assert!(screen.pane.open, "C opens the log");
    let target = screen.log_target(0, &data).unwrap();
    assert_eq!(target.container.as_deref(), Some("istio-proxy"));
    screen.begin_follow(Some(target));
    screen.next_container(&mut shell, &data);
    assert_eq!(
        screen.log_target(0, &data).unwrap().container.as_deref(),
        Some("api"),
        "round to the first again"
    );
    assert_eq!(
        screen.kubectl_line(&tab(), &data).as_deref(),
        Some("kubectl --context aks-qa -n dev logs -f orders-api-7d9f5b-k9x2p -c istio-proxy"),
        "the line copies what the worker was last told, not the choice in flight"
    );

    screen.list_mut().cursor.focus(1);
    let next = screen.log_target(0, &data).unwrap();
    assert_eq!(next.container, None);
    screen.begin_follow(Some(next));
    screen.next_container(&mut shell, &data);
    assert_eq!(
        shell.notification().map(|(said, _)| said),
        Some("orders-api-7d9f5b-abc12 has one container")
    );

    screen.toggle_previous(&mut shell);
    assert!(screen.log_target(0, &data).unwrap().previous);
    assert!(screen.previous());
    assert!(
        screen
            .kubectl_line(&tab(), &data)
            .unwrap()
            .ends_with("logs -f orders-api-7d9f5b-abc12 -p")
    );
}

#[test]
fn d_and_v_fetch_a_text_once_per_object_and_the_pane_shows_it_for_that_object() {
    let data = data();
    let mut screen = ScopeScreen::new(false);
    screen.refilter(&data);
    let object = screen.selected_object(&data).unwrap();
    assert_eq!(object.slash(), "pod/billing-worker-1a2b3c-old01");

    let request = screen.show_text(0, TextKind::Describe, &data);
    assert_eq!(
        request,
        Some(Request::Describe {
            scope: 0,
            object: object.clone()
        })
    );
    assert!(screen.pane.open);
    assert_eq!(screen.pane.text, PaneText::Describe);
    assert!(screen.text_pending(TextKind::Describe, &object));
    assert_eq!(screen.log_target(0, &data), None, "nothing is followed");

    screen.set_text(
        TextKind::Describe,
        object.clone(),
        Ok(vec!["Name: x".to_owned()]),
    );
    assert!(!screen.text_pending(TextKind::Describe, &object));
    assert_eq!(
        screen.text(TextKind::Describe, &object),
        Some(&Ok(vec!["Name: x".to_owned()]))
    );
    assert_eq!(
        screen.show_text(0, TextKind::Describe, &data),
        None,
        "already on file"
    );
    assert_eq!(
        screen.show_text(0, TextKind::Yaml, &data),
        Some(Request::Yaml {
            scope: 0,
            object: object.clone()
        }),
    );
    assert_eq!(screen.pane.text, PaneText::Yaml);
    assert_eq!(
        screen.kubectl_line(&tab(), &data).as_deref(),
        Some("kubectl --context aks-qa -n dev get pod/billing-worker-1a2b3c-old01 -o yaml")
    );
    // On an event, the text is about what the event is about.
    screen.set_kind(Kind::Events);
    screen.refilter(&data);
    assert_eq!(
        screen.show_text(0, TextKind::Describe, &data),
        Some(Request::Describe {
            scope: 0,
            object: ObjectRef::pod(&key("qa", "dev", "orders-api-7d9f5b-abc12"))
        })
    );
    screen.on_refresh();
    assert!(screen.text(TextKind::Describe, &object).is_none());
}

#[test]
fn scrolling_up_leaves_follow_mode_and_coming_back_to_the_tail_resumes_it() {
    let data = data();
    let mut screen = ScopeScreen::new(false);
    let mut shell = Shell::default();
    screen.refilter(&data);
    screen.toggle_log();
    let target = screen.log_target(0, &data).unwrap();
    screen.begin_follow(Some(target.clone()));
    screen.append_log(
        &target,
        (0..50).map(|line| format!("line {line}")).collect(),
        false,
    );
    screen.pane.scroll.set_viewport(10, 50);
    screen.pane.scroll.scroll_to(40);
    shell.focus = Focus::Details;
    let press = |screen: &mut ScopeScreen, shell: &mut Shell, code| {
        screen.handle_key(
            shell,
            &data,
            KeyEvent::plain(code),
        );
    };
    press(
        &mut screen,
        &mut shell,
        KeyCode::Char('k'),
    );
    assert!(!screen.log_following());
    assert_eq!(screen.pane.scroll.offset, 39);
    press(
        &mut screen,
        &mut shell,
        KeyCode::Char('j'),
    );
    assert!(screen.log_following(), "back at the tail");
    screen.scroll_pane(-20);
    assert!(!screen.log_following());
    press(&mut screen, &mut shell, KeyCode::End);
    assert!(screen.log_following());
    screen.toggle_zoom();
    assert!(screen.pane.zoom);
    screen.close_pane();
    assert!(!screen.pane.zoom && !screen.pane.open);
}

#[test]
fn capital_s_walks_the_columns_and_capital_r_turns_the_sort_over() {
    let data = data();
    let mut shell = Shell::default();
    let mut screen = ScopeScreen::new(false);
    screen.refilter(&data);
    let press = |screen: &mut ScopeScreen, shell: &mut Shell, code| {
        screen.handle_key(
            shell,
            &data,
            KeyEvent::plain(code),
        )
    };
    let was = screen.list().sort;
    press(
        &mut screen,
        &mut shell,
        KeyCode::Char('R'),
    );
    assert!(screen.list().descending);
    assert_eq!(screen.list().sort, was, "R keeps the column");
    press(
        &mut screen,
        &mut shell,
        KeyCode::Char('S'),
    );
    assert!(!screen.list().descending, "a new column starts ascending");
}

#[test]
fn a_log_is_the_tail_of_everything_its_own_stream_brought() {
    let data = data();
    let mut screen = ScopeScreen::new(false);
    screen.refilter(&data);
    screen.toggle_log();
    let target = screen.log_target(0, &data).unwrap();
    let stale = LogFollow {
        key: key("prod", "prod", "other"),
        ..target.clone()
    };
    screen.begin_follow(Some(target.clone()));
    let mut brought: Vec<String> = Vec::new();
    for batch in 0..5usize {
        let lines: Vec<String> = (0..LOG_LINE_CAP / 3)
            .map(|line| format!("batch {batch} line {line}"))
            .collect();
        brought.extend(lines.iter().cloned());
        screen.append_log(&target, lines, false);
        screen.append_log(&stale, vec!["not mine".to_owned()], true);
        assert!(!screen.log_ended(), "another stream's end is not this one's");
    }
    let held = screen.log_lines();
    assert_eq!(held.len(), LOG_LINE_CAP);
    let skipped = brought.len() - (LOG_LINE_CAP - 1);
    assert_eq!(held[0], format!("… {skipped} earlier lines skipped"));
    assert_eq!(held[1..], brought[skipped..]);
    screen.append_log(&target, vec!["last".to_owned()], true);
    assert!(screen.log_ended());
    let held = screen.log_lines();
    assert_eq!(
        held[0],
        format!("… {} earlier lines skipped", skipped + 1),
        "the count carries on"
    );
    assert_eq!(held.last().map(String::as_str), Some("last"));
}

#[test]
fn the_pane_shows_only_the_lines_that_hold_every_word() {
    let mut screen = ScopeScreen::new(false);
    let lines: Vec<String> = ["GET /orders 200", "get /orders 500", "POST /orders 500"]
        .map(str::to_owned)
        .to_vec();
    assert_eq!(screen.pane.shown_lines(&lines), lines, "no filter, every line");
    assert_eq!(screen.pane.filter_line(&lines), "");
    screen.pane.filter.set_text("500 GET");
    assert_eq!(screen.pane.shown_lines(&lines), ["get /orders 500"]);
    assert_eq!(screen.pane.filter_line(&lines), "/ 500 GET · 1/3");
    screen.pane.filter.set_text("nothing");
    assert!(screen.pane.shown_lines(&lines).is_empty());
    assert_eq!(screen.pane.filter_line(&lines), "/ nothing · 0/3");
}
