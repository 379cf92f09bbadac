use az_tui::app::screen::{AppAction, Target};
use az_tui::app::secrets::{
    default_layout, expiring, haystack, passes, schema, sort, sortable, Expiry, SecretsScreen, REST,
    REVEAL_FOR,
};
use az_tui::app::shell::Shell;
use az_tui::azure::{Inventory, Secret, SecretRow, Vault};
use az_tui::columns::{environment_columns, ColumnId, TableLayout};
use az_tui::filter::Query;
use az_tui::input::{KeyCode, KeyEvent};
use az_tui::store::AzureStore;
use az_tui::timestamp::Timestamp;
use az_tui::worker::{Event, Request};

fn ts(raw: &str) -> Timestamp {
    Timestamp::parse(raw).unwrap()
}

fn now() -> Timestamp {
    ts("2026-09-11T20:00:00Z")
}

fn row(vault: &str, name: &str) -> SecretRow {
    SecretRow {
        vault: vault.to_owned(),
        name: name.to_owned(),
        enabled: true,
        created: None,
        updated: None,
        expires: None,
        not_before: None,
        content_type: None,
        tags: Vec::new(),
        managed: false,
    }
}

#[test]
fn tests_the_haystack_holds_every_cell_a_person_might_type_part_of() {
    let mut held = row("kv-prod", "db-password");
    held.content_type = Some("text/plain".into());
    held.tags = vec![("env".into(), "prod".into())];
    let text = haystack(&held);
    assert!(text.contains("kv-prod"));
    assert!(text.contains("db-password"));
    assert!(text.contains("text/plain"));
    assert!(text.contains("env=prod"));
}

#[test]
fn tests_a_field_filter_narrows_and_an_unknown_one_is_ignored() {
    let mut held = row("kv-prod", "db-password");
    held.content_type = Some("text/plain".into());
    held.tags = vec![("env".into(), "prod".into())];

    let query = |raw: &str| Query::parse(raw, &schema());
    assert!(passes(&held, &query("vault:kv-prod"), now()));
    assert!(passes(&held, &query("vault:PROD"), now()));
    assert!(!passes(&held, &query("vault:kv-qa"), now()));
    assert!(passes(&held, &query("type:plain"), now()));
    assert!(passes(&held, &query("tag:env=prod"), now()));
    assert!(!passes(&held, &query("tag:env=qa"), now()));
    assert!(
        passes(&held, &query("vault:kv-prod tag:env"), now()),
        "every filter is ANDed"
    );
}

#[test]
fn tests_a_half_typed_boolean_does_not_empty_the_table() {
    let held = row("kv-prod", "db-password");
    let query = Query::parse("enabled:", &schema());
    assert!(query.fields.is_empty(), "a bare key is still a word");

    let query = Query::parse("enabled:y", &schema());
    assert!(passes(&held, &query, now()));
    let query = Query::parse("enabled:whatever", &schema());
    assert!(
        passes(&held, &query, now()),
        "a value that is not a yes or a no is no opinion"
    );
    let query = Query::parse("enabled:no", &schema());
    assert!(!passes(&held, &query, now()));
}

#[test]
fn tests_an_expiry_is_told_four_ways_and_the_boundary_lands_where_it_says() {
    assert_eq!(Expiry::of(None, now()), Expiry::Unset);
    assert_eq!(
        Expiry::of(Some(ts("2026-09-08T20:00:00Z")), now()),
        Expiry::Expired
    );
    assert_eq!(
        Expiry::of(Some(ts("2026-10-11T20:00:00Z")), now()),
        Expiry::Soon,
        "exactly 30 days is still soon"
    );
    assert_eq!(
        Expiry::of(Some(ts("2026-10-12T20:01:00Z")), now()),
        Expiry::Later
    );
    assert_eq!(
        Expiry::of(Some(ts("2026-09-11T20:00:00Z")), now()),
        Expiry::Soon,
        "today is soon, not expired"
    );
}

#[test]
fn tests_an_expiry_cell_says_the_age_or_a_dash_or_that_it_has_gone() {
    let soon = Some(ts("2026-09-23T20:00:00Z"));
    assert_eq!(Expiry::Unset.cell(None, now()), "—");
    assert_eq!(
        Expiry::Soon.cell(soon, now()),
        "12d ⚠",
        "marked as well as coloured"
    );
    assert_eq!(
        Expiry::Expired.cell(Some(ts("2026-09-08T20:00:00Z")), now()),
        "expired"
    );
}

fn order() -> Vec<(String, usize)> {
    [("kv-dev", 0), ("kv-qa", 1), ("kv-prod", 2)]
        .into_iter()
        .map(|(name, at)| (name.to_owned(), at))
        .collect()
}

fn sorted(rows: &Vec<SecretRow>, by: ColumnId, descending: bool) -> Vec<String> {
    let mut indices: Vec<usize> = (0..rows.len()).collect();
    sort(&mut indices, rows, by, descending, &order());
    indices
        .into_iter()
        .map(|at| format!("{}/{}", rows[at].vault, rows[at].name))
        .collect()
}

#[test]
fn tests_the_default_sort_puts_one_secrets_three_environments_next_to_each_other() {
    let rows = vec![
        row("kv-prod", "db-password"),
        row("kv-dev", "api-key"),
        row("kv-dev", "db-password"),
        row("kv-qa", "db-password"),
    ];
    assert_eq!(
        sorted(&rows, ColumnId::Name, false),
        [
            "kv-dev/api-key",
            "kv-dev/db-password",
            "kv-qa/db-password",
            "kv-prod/db-password",
        ],
        "by name, then the configuration's vault order — not the alphabet"
    );
}

#[test]
fn tests_sorting_by_the_vault_column_follows_the_configuration_not_the_alphabet() {
    let rows = vec![row("kv-prod", "a"), row("kv-dev", "a"), row("kv-qa", "a")];
    assert_eq!(
        sorted(&rows, ColumnId::Vault, false),
        ["kv-dev/a", "kv-qa/a", "kv-prod/a"]
    );
    assert_eq!(
        sorted(&rows, ColumnId::Vault, true),
        ["kv-prod/a", "kv-qa/a", "kv-dev/a"]
    );
}

#[test]
fn tests_a_stamp_that_is_not_set_sorts_last_whichever_way_the_sort_points() {
    let mut rows = vec![row("kv-dev", "a"), row("kv-dev", "b"), row("kv-dev", "c")];
    rows[0].expires = Some(ts("2026-12-01T00:00:00Z"));
    rows[1].expires = None;
    rows[2].expires = Some(ts("2026-10-01T00:00:00Z"));

    assert_eq!(
        sorted(&rows, ColumnId::Expires, false),
        ["kv-dev/c", "kv-dev/a", "kv-dev/b"],
        "soonest first, and the one with no expiry last"
    );
    assert_eq!(
        sorted(&rows, ColumnId::Expires, true),
        ["kv-dev/a", "kv-dev/c", "kv-dev/b"],
        "flipped, and still last"
    );
}

#[test]
fn tests_only_the_columns_on_screen_can_be_sorted_by() {
    let layout = TableLayout::new(&environment_columns());
    let wide = sortable(&layout, 200);
    assert!(wide.contains(&ColumnId::Env));
    assert!(
        !wide.contains(&ColumnId::Vault),
        "the vault is hidden behind its environment"
    );
    assert!(wide.contains(&ColumnId::Name));
    assert!(
        !wide.contains(&ColumnId::Type),
        "Type is hidden by default, so `s` does not stop on it"
    );

    let narrow = sortable(&layout, 30);
    assert!(narrow.len() < wide.len(), "{narrow:?}");
    assert!(
        narrow.contains(&ColumnId::Name) && narrow.contains(&ColumnId::Env),
        "the pinned columns survive any width: {narrow:?}"
    );
}

fn stocked() -> AzureStore {
    let vault = |name: &str| Vault {
        id: format!("/vaults/{name}"),
        name: name.to_owned(),
        resource_group: "rg".into(),
        location: "eastus".into(),
        uri: format!("https://{name}.vault.azure.net/"),
    };
    let mut store = AzureStore::default();
    store.apply(Event::Inventory(Ok(Inventory {
        vaults: vec![vault("kv-dev"), vault("kv-prod")],
        registries: Vec::new(),
    })), now());
    store.apply(Event::Secrets {
        vault: "kv-dev".into(),
        result: Ok(vec![row("kv-dev", "api-key"), row("kv-dev", "db-password")]),
    }, now());
    store.apply(Event::Secrets {
        vault: "kv-prod".into(),
        result: Ok(vec![row("kv-prod", "db-password")]),
    }, now());
    store
}

fn shown(screen: &SecretsScreen, store: &AzureStore) -> Vec<String> {
    screen
        .visible()
        .iter()
        .map(|at| format!("{}/{}", store.secrets[*at].vault, store.secrets[*at].name))
        .collect()
}

#[test]
fn tests_a_query_narrows_the_rows_and_the_border_says_how_many_are_left() {
    let store = stocked();
    let mut screen = SecretsScreen::default();
    screen.refilter(&store, now());
    assert_eq!(screen.visible().len(), 3);
    assert_eq!(screen.status(&store), "3 · Name ↑");

    screen.input.set_text("db");
    screen.refilter(&store, now());
    assert_eq!(
        shown(&screen, &store),
        ["kv-dev/db-password", "kv-prod/db-password"]
    );
    assert_eq!(screen.status(&store), "2/3 · Name ↑");

    screen.input.set_text("vault:kv-prod");
    screen.refilter(&store, now());
    assert_eq!(shown(&screen, &store), ["kv-prod/db-password"]);

    screen.input.set_text("zzz");
    screen.refilter(&store, now());
    assert!(screen.visible().is_empty());
    assert_eq!(screen.cursor.index, 0, "the cursor comes back onto nothing");
}

#[test]
fn tests_the_cursor_stays_on_the_same_secret_when_a_refresh_reorders_the_rows() {
    let mut store = stocked();
    let mut screen = SecretsScreen::default();
    screen.refilter(&store, now());
    screen.cursor.focus(2);
    assert_eq!(
        screen.cursor_identity(&store),
        Some(("kv-prod".to_owned(), "db-password".to_owned()))
    );

    let was = screen.cursor_identity(&store);
    // kv-dev grows a secret that sorts before the one under the cursor.
    store.apply(Event::Secrets {
        vault: "kv-dev".into(),
        result: Ok(vec![
            row("kv-dev", "aaa-new"),
            row("kv-dev", "api-key"),
            row("kv-dev", "db-password"),
        ]),
    }, now());
    screen.invalidate();
    screen.keep_cursor(&store, was, now());
    assert_eq!(
        screen.cursor_identity(&store),
        Some(("kv-prod".to_owned(), "db-password".to_owned())),
        "the row moved down one and the cursor went with it"
    );

    // And when the secret under it is gone, the cursor lands on the list.
    let was = screen.cursor_identity(&store);
    store.apply(Event::Secrets {
        vault: "kv-prod".into(),
        result: Ok(Vec::new()),
    }, now());
    screen.invalidate();
    screen.keep_cursor(&store, was, now());
    assert!(screen.cursor.index < screen.visible().len());
}

#[test]
fn tests_s_walks_the_columns_and_a_header_click_cycles_one() {
    let store = stocked();
    let mut screen = SecretsScreen::default();
    screen.note_width(120);
    assert_eq!(screen.sort, ColumnId::Name);

    screen.next_sort();
    assert_eq!(screen.sort, ColumnId::Enabled);
    assert!(!screen.descending, "a new column starts ascending");

    screen.sort_by(ColumnId::Expires);
    assert_eq!((screen.sort, screen.descending), (ColumnId::Expires, false));
    screen.sort_by(ColumnId::Expires);
    assert_eq!((screen.sort, screen.descending), (ColumnId::Expires, true));
    screen.sort_by(ColumnId::Expires);
    assert_eq!(
        (screen.sort, screen.descending),
        (ColumnId::Name, false),
        "a third click on the same header goes back to the default"
    );
    let _ = &store;
}

// ── Reveal, copy, and the rest interval ─────────────────────────────

fn key(code: KeyCode) -> KeyEvent {
    KeyEvent::plain(code)
}

fn press(
    screen: &mut SecretsScreen,
    shell: &mut Shell,
    store: &AzureStore,
    code: char,
) -> AppAction {
    screen.handle_key(shell, store, key(KeyCode::Char(code)))
}

fn value(name: &str) -> Result<(Secret, String), String> {
    Ok((Secret::new(&format!("{name}-value")), "v1".to_owned()))
}

#[test]
fn v_asks_once_shows_the_value_and_lets_it_go_at_sixty_seconds() {
    let store = stocked();
    let mut screen = SecretsScreen::default();
    let mut shell = Shell::default();
    screen.refilter(&store, now());
    let row = screen.selected(&store).unwrap().copy();
    assert_eq!(row.name, "api-key");

    let action = press(&mut screen, &mut shell, &store, 'v');
    assert!(
        matches!(&action, AppAction::Azure(Request::Value { name, .. }) if name == "api-key"),
        "{action:?}"
    );
    assert!(screen.is_reading(&row));

    let clock: u64 = 0;
    screen.on_value(
        &mut shell,
        &store,
        "kv-dev",
        "api-key",
        value("api-key"),
        clock,
    );
    let held = screen.revealed_here(&row).expect("a value");
    assert_eq!(held.expose(), "api-key-value");
    assert_eq!(held.version, "v1");
    assert_eq!(held.clears_in(clock), 60);
    assert_eq!(held.clears_in(clock + 13_000), 47);

    // One second short of a minute it is still there; at a minute it is
    // not.
    screen.tick(&store, clock + 59_000);
    assert!(screen.revealed_here(&row).is_some());
    screen.tick(&store, clock + REVEAL_FOR);
    assert!(screen.revealed_here(&row).is_none());
}

#[test]
fn v_again_hides_it_and_so_does_moving_r_and_a_tab_switch() {
    let store = stocked();
    let mut screen = SecretsScreen::default();
    let mut shell = Shell::default();
    screen.refilter(&store, now());
    let row = screen.selected(&store).unwrap().copy();
    let show = |screen: &mut SecretsScreen, shell: &mut Shell| {
        press(screen, shell, &store, 'v');
        screen.on_value(
            shell,
            &store,
            "kv-dev",
            "api-key",
            value("api-key"),
            0,
        );
    };

    show(&mut screen, &mut shell);
    press(&mut screen, &mut shell, &store, 'v');
    assert!(screen.revealed_here(&row).is_none(), "v again hides it");

    show(&mut screen, &mut shell);
    press(&mut screen, &mut shell, &store, 'j');
    assert!(screen.revealed.is_none(), "moving the cursor drops it");

    screen.cursor.focus(0);
    show(&mut screen, &mut shell);
    screen.on_refresh();
    assert!(screen.revealed.is_none(), "r and a tab switch drop it");
}

#[test]
fn a_value_for_a_row_the_cursor_has_left_is_dropped_on_the_floor() {
    let store = stocked();
    let mut screen = SecretsScreen::default();
    let mut shell = Shell::default();
    screen.refilter(&store, now());
    press(&mut screen, &mut shell, &store, 'v');
    press(&mut screen, &mut shell, &store, 'j');

    screen.on_value(
        &mut shell,
        &store,
        "kv-dev",
        "api-key",
        value("api-key"),
        0,
    );
    assert!(screen.revealed.is_none(), "it belonged to the row before");
}

#[test]
fn y_without_a_reveal_asks_and_copies_on_arrival_and_with_one_copies_at_once() {
    let store = stocked();
    let mut screen = SecretsScreen::default();
    let mut shell = Shell::default();
    screen.refilter(&store, now());

    let action = press(&mut screen, &mut shell, &store, 'y');
    assert!(matches!(action, AppAction::Azure(_)), "{action:?}");
    let action = screen.on_value(
        &mut shell,
        &store,
        "kv-dev",
        "api-key",
        value("api-key"),
        0,
    );
    match action {
        AppAction::Copy { text, label } => {
            assert_eq!(text, "api-key-value");
            assert_eq!(label, "Copied value of api-key (kv-dev)");
            assert!(!label.contains("api-key-value"), "the label never says it");
        }
        other => panic!("{other:?}"),
    }
    assert!(
        screen.revealed.is_none(),
        "copying blind does not put it on the screen"
    );

    // With one already showing, `y` copies it and sends nothing.
    press(&mut screen, &mut shell, &store, 'v');
    screen.on_value(
        &mut shell,
        &store,
        "kv-dev",
        "api-key",
        value("api-key"),
        0,
    );
    let action = press(&mut screen, &mut shell, &store, 'y');
    assert!(matches!(action, AppAction::Copy { .. }), "{action:?}");
}

#[test]
fn a_refusal_shows_under_value_and_goes_when_the_cursor_does() {
    let store = stocked();
    let mut screen = SecretsScreen::default();
    let mut shell = Shell::default();
    screen.refilter(&store, now());
    press(&mut screen, &mut shell, &store, 'v');
    screen.on_value(
        &mut shell,
        &store,
        "kv-dev",
        "api-key",
        Err("kv-dev: no permission to read secrets".to_owned()),
        0,
    );
    assert_eq!(
        screen.refusal().map(String::as_str),
        Some("kv-dev: no permission to read secrets")
    );
    press(&mut screen, &mut shell, &store, 'j');
    assert!(screen.refusal().is_none());
}

#[test]
fn holding_j_down_across_ten_rows_asks_for_one_rows_versions_not_ten() {
    // Deeper than the ten presses, so the cursor never hits the end and
    // starts resting there.
    let mut store = stocked();
    store.apply(Event::Secrets {
        vault: "kv-dev".into(),
        result: Ok((0..20)
            .map(|n| row("kv-dev", &format!("secret-{n:02}")))
            .collect()),
    }, now());
    let mut screen = SecretsScreen::default();
    let mut shell = Shell::default();
    screen.refilter(&store, now());

    let mut clock: u64 = 0;
    let mut asked = 0;
    for _ in 0..10 {
        press(&mut screen, &mut shell, &store, 'j');
        // A key every 40 ms, which is a held-down key.
        clock += 40;
        if screen.tick(&store, clock).is_some() {
            asked += 1;
        }
    }
    assert_eq!(asked, 0, "nothing rested long enough to be worth asking");

    // Let go, and the row under the cursor is asked about — once.
    clock += REST;
    let request = screen.tick(&store, clock);
    let here = screen.selected(&store).unwrap().name.clone();
    assert!(
        matches!(&request, Some(Request::Versions { name, .. }) if *name == here),
        "{request:?} for {here}"
    );
    clock += REST;
    assert!(
        screen.tick(&store, clock).is_none(),
        "asked once per row per run"
    );
}

#[test]
fn the_debug_of_the_whole_screen_never_contains_a_value() {
    let store = stocked();
    let mut screen = SecretsScreen::default();
    let mut shell = Shell::default();
    screen.refilter(&store, now());
    press(&mut screen, &mut shell, &store, 'v');
    screen.on_value(
        &mut shell,
        &store,
        "kv-dev",
        "api-key",
        Ok((Secret::new("hunter2"), "v1".to_owned())),
        0,
    );
    let printed = screen.revealed.as_ref().unwrap().printed();
    assert!(printed.contains("api-key"), "{printed}");
    assert!(!printed.contains("hunter2"), "{printed}");
}

#[test]
fn capital_y_copies_the_name_and_o_opens_the_vaults_blade() {
    let store = stocked();
    let mut screen = SecretsScreen::default();
    let mut shell = Shell::default();
    screen.refilter(&store, now());

    match press(&mut screen, &mut shell, &store, 'Y') {
        AppAction::Copy { text, label } => {
            assert_eq!(text, "api-key");
            assert!(label.contains("kv-dev"), "{label}");
        }
        other => panic!("{other:?}"),
    }
    match press(&mut screen, &mut shell, &store, 'o') {
        AppAction::OpenUrl(url) => {
            assert!(
                url.starts_with("https://portal.azure.com/#@/resource/vaults/kv-dev"),
                "{url}"
            );
            assert!(url.ends_with("/secrets"), "{url}");
        }
        other => panic!("{other:?}"),
    }
}

#[test]
fn tests_the_badge_counts_only_enabled_secrets_that_are_running_out() {
    let mut rows = vec![
        row("kv-a", "fine"),
        row("kv-a", "soon"),
        row("kv-a", "gone"),
    ];
    rows[1].expires = Some(ts("2026-09-23T20:00:00Z"));
    rows[2].expires = Some(ts("2026-09-08T20:00:00Z"));
    assert_eq!(expiring(&rows, now()), 2);

    rows[2].enabled = false;
    assert_eq!(
        expiring(&rows, now()),
        1,
        "a disabled secret's expiry is nobody's problem"
    );
}

#[test]
fn an_answer_for_a_row_the_cursor_left_does_not_cancel_the_ask_on_the_new_one() {
    let store = stocked();
    let mut screen = SecretsScreen::default();
    let mut shell = Shell::default();
    screen.refilter(&store, now());
    let first = screen.selected(&store).unwrap().copy();
    press(&mut screen, &mut shell, &store, 'v');
    press(&mut screen, &mut shell, &store, 'j');
    let second = screen.selected(&store).unwrap().copy();
    assert_ne!(first.name, second.name);
    press(&mut screen, &mut shell, &store, 'v');
    // The first answer lands late, for a row nobody is on any more.
    screen.on_value(
        &mut shell,
        &store,
        &first.vault,
        &first.name,
        Ok((Secret::new("a"), "v1".into())),
        0,
    );
    screen.on_value(
        &mut shell,
        &store,
        &second.vault,
        &second.name,
        Ok((Secret::new("b"), "v2".into())),
        0,
    );
    assert!(
        screen.revealed_here(&second).is_some(),
        "the ask still out was answered, not cancelled by the stale one"
    );
}

#[test]
fn a_click_on_another_row_takes_a_revealed_value_off_the_screen() {
    let store = stocked();
    let mut screen = SecretsScreen::default();
    let mut shell = Shell::default();
    screen.refilter(&store, now());
    let row = screen.selected(&store).unwrap().copy();
    press(&mut screen, &mut shell, &store, 'v');
    screen.on_value(
        &mut shell,
        &store,
        &row.vault,
        &row.name,
        Ok((Secret::new("x"), "v".into())),
        0,
    );
    assert!(screen.revealed_here(&row).is_some());
    screen.handle_click(Target::Row(1));
    assert!(
        screen.revealed_here(&row).is_none(),
        "looking away drops it, by mouse as by key"
    );
    assert!(!screen.is_ticking(), "and nothing is left counting down");
}

#[test]
fn the_wheel_after_a_shrinking_refresh_does_not_turn_the_window_inside_out() {
    let mut store = AzureStore::default();
    store.apply(Event::Inventory(Ok(Inventory {
        vaults: vec![Vault {
            id: "/vaults/kv-dev".into(),
            name: "kv-dev".into(),
            resource_group: "rg".into(),
            location: "eastus".into(),
            uri: "https://kv-dev.vault.azure.net/".into(),
        }],
        registries: Vec::new(),
    })), now());
    store.apply(Event::Secrets {
        vault: "kv-dev".into(),
        result: Ok((0..20)
            .map(|n| row("kv-dev", &format!("s-{n:02}")))
            .collect()),
    }, now());
    let mut screen = SecretsScreen::default();
    screen.refilter(&store, now());
    // As the last draw left it: a five-row window, the cursor well down.
    screen.cursor.scroll.set_viewport(5, screen.visible().len());
    screen.cursor.focus(15);
    // The vault answers with two rows; the table is short and the scroll
    // state is stale.
    store.apply(Event::Secrets {
        vault: "kv-dev".into(),
        result: Ok(vec![row("kv-dev", "a"), row("kv-dev", "b")]),
    }, now());
    screen.invalidate();
    screen.keep_cursor(&store, None, now());
    screen.handle_wheel(None, 3);
    assert!(screen.cursor.index < screen.visible().len());
}

// ── The same table, opened on the vault column ─────────────────────────

#[test]
fn secrets_the_haystack_holds_every_cell_a_person_might_type_part_of() {
    let mut held = row("kv-prod", "db-password");
    held.content_type = Some("text/plain".into());
    held.tags = vec![("env".into(), "prod".into())];
    let text = haystack(&held);
    assert!(text.contains("kv-prod"));
    assert!(text.contains("db-password"));
    assert!(text.contains("text/plain"));
    assert!(text.contains("env=prod"));
}

#[test]
fn secrets_a_field_filter_narrows_and_an_unknown_one_is_ignored() {
    let mut held = row("kv-prod", "db-password");
    held.content_type = Some("text/plain".into());
    held.tags = vec![("env".into(), "prod".into())];

    let query = |raw: &str| Query::parse(raw, &schema());
    assert!(passes(&held, &query("vault:kv-prod"), now()));
    assert!(passes(&held, &query("vault:PROD"), now()));
    assert!(!passes(&held, &query("vault:kv-qa"), now()));
    assert!(passes(&held, &query("type:plain"), now()));
    assert!(passes(&held, &query("tag:env=prod"), now()));
    assert!(!passes(&held, &query("tag:env=qa"), now()));
    assert!(
        passes(&held, &query("vault:kv-prod tag:env"), now()),
        "every filter is ANDed"
    );
}

#[test]
fn secrets_a_half_typed_boolean_does_not_empty_the_table() {
    let held = row("kv-prod", "db-password");
    let query = Query::parse("enabled:", &schema());
    assert!(query.fields.is_empty(), "a bare key is still a word");

    let query = Query::parse("enabled:y", &schema());
    assert!(passes(&held, &query, now()));
    let query = Query::parse("enabled:whatever", &schema());
    assert!(
        passes(&held, &query, now()),
        "a value that is not a yes or a no is no opinion"
    );
    let query = Query::parse("enabled:no", &schema());
    assert!(!passes(&held, &query, now()));
}

#[test]
fn secrets_an_expiry_is_told_four_ways_and_the_boundary_lands_where_it_says() {
    assert_eq!(Expiry::of(None, now()), Expiry::Unset);
    assert_eq!(
        Expiry::of(Some(ts("2026-09-08T20:00:00Z")), now()),
        Expiry::Expired
    );
    assert_eq!(
        Expiry::of(Some(ts("2026-10-11T20:00:00Z")), now()),
        Expiry::Soon,
        "exactly 30 days is still soon"
    );
    assert_eq!(
        Expiry::of(Some(ts("2026-10-12T20:01:00Z")), now()),
        Expiry::Later
    );
    assert_eq!(
        Expiry::of(Some(ts("2026-09-11T20:00:00Z")), now()),
        Expiry::Soon,
        "today is soon, not expired"
    );
}

#[test]
fn secrets_the_default_sort_puts_one_secrets_three_environments_next_to_each_other() {
    let rows = vec![
        row("kv-prod", "db-password"),
        row("kv-dev", "api-key"),
        row("kv-dev", "db-password"),
        row("kv-qa", "db-password"),
    ];
    assert_eq!(
        sorted(&rows, ColumnId::Name, false),
        [
            "kv-dev/api-key",
            "kv-dev/db-password",
            "kv-qa/db-password",
            "kv-prod/db-password",
        ],
        "by name, then the configuration's vault order — not the alphabet"
    );
}

#[test]
fn secrets_sorting_by_the_vault_column_follows_the_configuration_not_the_alphabet() {
    let rows = vec![row("kv-prod", "a"), row("kv-dev", "a"), row("kv-qa", "a")];
    assert_eq!(
        sorted(&rows, ColumnId::Vault, false),
        ["kv-dev/a", "kv-qa/a", "kv-prod/a"]
    );
    assert_eq!(
        sorted(&rows, ColumnId::Vault, true),
        ["kv-prod/a", "kv-qa/a", "kv-dev/a"]
    );
}

#[test]
fn secrets_a_stamp_that_is_not_set_sorts_last_whichever_way_the_sort_points() {
    let mut rows = vec![row("kv-dev", "a"), row("kv-dev", "b"), row("kv-dev", "c")];
    rows[0].expires = Some(ts("2026-12-01T00:00:00Z"));
    rows[1].expires = None;
    rows[2].expires = Some(ts("2026-10-01T00:00:00Z"));

    assert_eq!(
        sorted(&rows, ColumnId::Expires, false),
        ["kv-dev/c", "kv-dev/a", "kv-dev/b"],
        "soonest first, and the one with no expiry last"
    );
    assert_eq!(
        sorted(&rows, ColumnId::Expires, true),
        ["kv-dev/a", "kv-dev/c", "kv-dev/b"],
        "flipped, and still last"
    );
}

#[test]
fn secrets_a_query_narrows_the_rows_and_the_border_says_how_many_are_left() {
    let store = stocked();
    let mut screen = SecretsScreen::default();
    screen.refilter(&store, now());
    assert_eq!(screen.visible().len(), 3);
    assert_eq!(screen.status(&store), "3 · Name ↑");

    screen.input.set_text("db");
    screen.refilter(&store, now());
    assert_eq!(
        shown(&screen, &store),
        ["kv-dev/db-password", "kv-prod/db-password"]
    );
    assert_eq!(screen.status(&store), "2/3 · Name ↑");

    screen.input.set_text("vault:kv-prod");
    screen.refilter(&store, now());
    assert_eq!(shown(&screen, &store), ["kv-prod/db-password"]);

    screen.input.set_text("zzz");
    screen.refilter(&store, now());
    assert!(screen.visible().is_empty());
    assert_eq!(screen.cursor.index, 0, "the cursor comes back onto nothing");
}

#[test]
fn secrets_the_cursor_stays_on_the_same_secret_when_a_refresh_reorders_the_rows() {
    let mut store = stocked();
    let mut screen = SecretsScreen::default();
    screen.refilter(&store, now());
    screen.cursor.focus(2);
    assert_eq!(
        screen.cursor_identity(&store),
        Some(("kv-prod".to_owned(), "db-password".to_owned()))
    );

    let was = screen.cursor_identity(&store);
    // kv-dev grows a secret that sorts before the one under the cursor.
    store.apply(Event::Secrets {
        vault: "kv-dev".into(),
        result: Ok(vec![
            row("kv-dev", "aaa-new"),
            row("kv-dev", "api-key"),
            row("kv-dev", "db-password"),
        ]),
    }, now());
    screen.invalidate();
    screen.keep_cursor(&store, was, now());
    assert_eq!(
        screen.cursor_identity(&store),
        Some(("kv-prod".to_owned(), "db-password".to_owned())),
        "the row moved down one and the cursor went with it"
    );

    // And when the secret under it is gone, the cursor lands on the list.
    let was = screen.cursor_identity(&store);
    store.apply(Event::Secrets {
        vault: "kv-prod".into(),
        result: Ok(Vec::new()),
    }, now());
    screen.invalidate();
    screen.keep_cursor(&store, was, now());
    assert!(screen.cursor.index < screen.visible().len());
}

#[test]
fn secrets_s_walks_the_columns_and_a_header_click_cycles_one() {
    let store = stocked();
    let mut screen = SecretsScreen::default();
    screen.note_width(120);
    assert_eq!(screen.sort, ColumnId::Name);

    screen.next_sort();
    assert_eq!(screen.sort, ColumnId::Enabled);
    assert!(!screen.descending, "a new column starts ascending");

    screen.sort_by(ColumnId::Expires);
    assert_eq!((screen.sort, screen.descending), (ColumnId::Expires, false));
    screen.sort_by(ColumnId::Expires);
    assert_eq!((screen.sort, screen.descending), (ColumnId::Expires, true));
    screen.sort_by(ColumnId::Expires);
    assert_eq!(
        (screen.sort, screen.descending),
        (ColumnId::Name, false),
        "a third click on the same header goes back to the default"
    );
    let _ = &store;
}

#[test]
fn secrets_the_badge_counts_only_enabled_secrets_that_are_running_out() {
    let mut rows = vec![
        row("kv-a", "fine"),
        row("kv-a", "soon"),
        row("kv-a", "gone"),
    ];
    rows[1].expires = Some(ts("2026-09-23T20:00:00Z"));
    rows[2].expires = Some(ts("2026-09-08T20:00:00Z"));
    assert_eq!(expiring(&rows, now()), 2);

    rows[2].enabled = false;
    assert_eq!(
        expiring(&rows, now()),
        1,
        "a disabled secret's expiry is nobody's problem"
    );
}

#[test]
fn secrets_only_the_columns_on_screen_can_be_sorted_by() {
    let layout = default_layout();
    let wide = sortable(&layout, 200);
    assert!(wide.contains(&ColumnId::Vault));
    assert!(wide.contains(&ColumnId::Name));
    assert!(
        !wide.contains(&ColumnId::Type),
        "Type is hidden by default, so `s` does not stop on it"
    );

    let narrow = sortable(&layout, 30);
    assert!(narrow.len() < wide.len(), "{narrow:?}");
    assert!(
        narrow.contains(&ColumnId::Name) && narrow.contains(&ColumnId::Vault),
        "the pinned columns survive any width: {narrow:?}"
    );
}
