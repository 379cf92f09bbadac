use az_tui::app::cursor::{ListCursor, ScrollState};
use az_tui::app::keys::{all_keys, for_section, Section};
use az_tui::app::screen::{TabId, Target};
use az_tui::app::shell::{Focus, Level, Panes, Rect, Shell, NOTIFICATION};
use az_tui::columns::{
    repository_columns, secret_columns, tag_columns, ColumnConfig, ColumnId, Constraint,
    TableLayout, COLUMN_SPACING, MIN_FLEXIBLE_WIDTH,
};

// ── The cursor ─────────────────────────────────────────────────────────

fn cursor(viewport: usize) -> ListCursor {
    let mut cursor = ListCursor::default();
    cursor.scroll.viewport = viewport;
    cursor.scroll.content = 20;
    cursor
}

#[test]
fn a_cursor_stops_at_both_ends_and_scrolls_itself_into_view() {
    let mut list = cursor(5);
    list.move_by(-1, 20);
    assert_eq!((list.index, list.scroll.offset), (0, 0), "the top holds");

    list.move_by(7, 20);
    assert_eq!(list.index, 7);
    assert_eq!(list.scroll.offset, 3, "the row is the last one on screen");

    list.move_by(50, 20);
    assert_eq!(list.index, 19, "and the bottom holds");

    list.page(-1, 20);
    assert_eq!(
        list.index, 15,
        "a page is a screenful less the row of overlap"
    );
    list.reset();
    assert_eq!((list.index, list.scroll.offset), (0, 0));
}

#[test]
fn a_shorter_list_pulls_the_cursor_back_onto_it() {
    let mut list = cursor(5);
    list.move_by(9, 20);
    assert_eq!(list.index, 9);

    list.clamp(4);
    assert_eq!(list.index, 3, "the last row of the shorter list");

    list.clamp(0);
    assert_eq!((list.index, list.scroll.offset), (0, 0), "and none of it");
}

#[test]
fn the_wheel_drags_the_cursor_along_with_the_viewport() {
    let mut list = cursor(5);
    assert!(
        list.wheel(3, 20),
        "row 0 scrolled off, so the cursor follows"
    );
    assert_eq!((list.index, list.scroll.offset), (3, 3));
    list.focus(5);
    assert!(!list.wheel(-1, 20), "row 5 is still on screen");
    assert_eq!((list.index, list.scroll.offset), (5, 2));
    assert!(list.wheel(1, 4), "a list shortened since the last draw");
    assert_eq!((list.index, list.scroll.offset), (3, 0));
}

#[test]
fn a_viewport_that_shrinks_pulls_the_offset_back_with_it() {
    let mut scroll = ScrollState {
        offset: 10,
        content: 20,
        viewport: 5,
    };
    scroll.set_viewport(5, 12);
    assert_eq!(scroll.offset, 7, "the last screenful of the shorter list");
    assert!(scroll.scroll_by(-3));
    assert_eq!(scroll.offset, 4);
    assert!(scroll.scroll_by(-10), "it moves as far as it can");
    assert_eq!(scroll.offset, 0);
    assert!(!scroll.scroll_by(-1), "and then says it did not move");
}

// ── The help ───────────────────────────────────────────────────────────

#[test]
fn every_key_says_what_it_does_and_the_widest_column_stays_narrow() {
    for key in all_keys() {
        assert!(!key.keys.is_empty() && !key.does.is_empty());
        assert!(
            key.keys.chars().count() <= 12,
            "the help's left column is 12 wide: {:?}",
            key.keys
        );
    }
}

#[test]
fn a_section_sees_the_shared_keys_and_its_own() {
    let does = |section| -> Vec<&str> {
        for_section(section)
            .into_iter()
            .map(|key| key.does)
            .collect()
    };
    let has = |list: &[&str], word: &str| list.iter().any(|does| does.contains(word));

    let secrets = does(Section::Secrets);
    assert!(has(&secrets, "60 seconds"));
    assert!(!has(&secrets, "bash"));
    assert!(!has(&secrets, "repository's tags"));

    let aks = does(Section::Aks);
    assert!(has(&aks, "bash"));
    assert!(!has(&aks, "60 seconds"));

    let registries = does(Section::Registries);
    assert!(has(&registries, "repository's tags"));

    for list in [secrets, aks, registries] {
        assert!(has(&list, "refresh now"));
    }
}

// ── The two fixed tabs ─────────────────────────────────────────────────

#[test]
fn a_tab_is_named_by_its_number_and_knows_a_short_name() {
    assert_eq!(TabId::from_number('1'), Some(TabId::Secrets));
    assert_eq!(TabId::from_number('2'), Some(TabId::Registries));
    assert_eq!(TabId::from_number('3'), None);
    for tab in TabId::all() {
        assert_eq!(TabId::from_number(tab.number()), Some(tab));
        assert!(tab.short_label().len() <= tab.label().len());
    }
}

// ── The shell ──────────────────────────────────────────────────────────

#[test]
fn the_last_region_drawn_is_the_one_a_click_lands_on() {
    let mut shell = Shell::default();
    shell.begin_frame();
    shell.region(Rect::new(0, 0, 40, 10), Target::Details);
    shell.region(Rect::new(5, 2, 10, 2), Target::Row(3));
    assert_eq!(shell.hit(6, 3), Some(Target::Row(3)));
    assert_eq!(shell.hit(30, 8), Some(Target::Details));
    assert_eq!(shell.hit(90, 3), None);

    shell.begin_frame();
    assert_eq!(shell.hit(6, 3), None, "a new frame clears the old regions");
}

#[test]
fn the_panes_follow_the_width() {
    assert_eq!(Shell::panes(120), Panes::SideBySide);
    assert_eq!(Shell::panes(110), Panes::SideBySide);
    assert_eq!(Shell::panes(109), Panes::Stacked);
    assert_eq!(Shell::panes(70), Panes::Stacked);
    assert_eq!(Shell::panes(69), Panes::One);
}

#[test]
fn a_notification_is_read_back_with_its_level() {
    let mut shell = Shell::default();
    assert!(shell.notification().is_none());
    shell.set_status("Copied value of db-password (kv-prod)");
    let (said, level) = shell.notification().unwrap();
    assert!(said.contains("db-password"));
    assert_eq!(level, Level::Info);

    shell.set_error("kv-prod: no permission");
    assert_eq!(shell.notification().unwrap().1, Level::Error);
}

#[test]
fn tab_moves_between_the_panes_and_always_leaves_the_search_box() {
    let mut shell = Shell::default();
    shell.toggle_focus();
    assert_eq!(shell.focus, Focus::Details);
    shell.toggle_focus();
    assert_eq!(shell.focus, Focus::Table);
    shell.focus = Focus::Search;
    shell.toggle_focus();
    assert_eq!(shell.focus, Focus::Table);
}

#[test]
fn a_notification_lasts_four_seconds_and_is_gone_once_read_after_that() {
    let mut shell = Shell::default();
    shell.set_clock(1_000);
    shell.set_status("Reading…");
    shell.set_clock(1_000 + NOTIFICATION - 1);
    assert_eq!(shell.notification().unwrap().0, "Reading…");
    shell.set_clock(1_000 + NOTIFICATION);
    assert!(shell.notification().is_none());
    shell.set_clock(1_000);
    assert!(shell.notification().is_none(), "it does not come back");
}

#[test]
fn something_drawn_is_found_again_where_it_was_drawn_first() {
    let mut shell = Shell::default();
    shell.region(Rect::new(1, 1, 5, 1), Target::KindPill);
    shell.region(Rect::new(9, 9, 5, 1), Target::KindPill);
    assert_eq!(shell.find(&Target::KindPill), Some(Rect::new(1, 1, 5, 1)));
    assert_eq!(shell.find(&Target::Help), None);
}

// ── Columns ────────────────────────────────────────────────────────────

/// What the flexible column is left with once the fixed ones and the gaps
/// between them are paid for.
fn flexible_width(columns: &[ColumnConfig], available: u16) -> u16 {
    let spacing = COLUMN_SPACING * (columns.len() as u16 - 1);
    let fixed: u16 = columns
        .iter()
        .filter(|column| !column.id.spec().flexible)
        .map(|column| column.width)
        .sum();
    available.saturating_sub(spacing).saturating_sub(fixed)
}

fn ids(columns: &[ColumnConfig]) -> Vec<ColumnId> {
    columns.iter().map(|column| column.id).collect()
}

#[test]
fn columns_drop_from_the_right_before_the_name_is_squeezed() {
    let layout = TableLayout::new(&secret_columns());
    for pane in [140_u16, 110, 90, 70, 55] {
        // What the pane leaves the columns: its own border, the selection
        // marker and the scrollbar.
        let available = TableLayout::available_width(pane - 2);
        let columns = layout.visible_columns(available);
        let visible = ids(&columns);

        assert_eq!(visible[0], ColumnId::Vault, "the pinned columns stay");
        assert_eq!(visible[1], ColumnId::Name);
        assert!(
            flexible_width(&columns, available) >= MIN_FLEXIBLE_WIDTH,
            "{pane} left the name {} wide with {visible:?}",
            flexible_width(&columns, available)
        );
        // Whatever went, went off the right-hand end.
        let mut ordered = visible.clone();
        ordered.sort_by_key(|id| {
            secret_columns()
                .iter()
                .position(|column| column.id == *id)
                .unwrap()
        });
        assert_eq!(ordered, visible, "the columns keep their order");
    }

    assert_eq!(
        ids(&layout.visible_columns(TableLayout::available_width(158))),
        vec![
            ColumnId::Vault,
            ColumnId::Name,
            ColumnId::Enabled,
            ColumnId::Expires,
            ColumnId::Updated,
        ],
        "a wide enough table keeps every column it opened with"
    );
}

/// The smallest table the program draws at all, less its border.
const MIN_WIDTH_INNER: u16 = 40 - 2;

#[test]
fn a_table_too_narrow_for_anything_keeps_what_says_which_row_it_is() {
    // Narrower than the two pinned columns want, and nothing left to drop:
    // the name takes what is there rather than the table dropping the column
    // that says which vault a secret is in.
    let secrets = TableLayout::new(&secret_columns());
    let cramped = TableLayout::available_width(MIN_WIDTH_INNER);
    let columns = secrets.visible_columns(cramped);
    assert_eq!(ids(&columns), vec![ColumnId::Vault, ColumnId::Name]);
    assert!(flexible_width(&columns, cramped) > 0);

    assert_eq!(
        ids(&secrets.visible_columns(0)),
        vec![ColumnId::Vault, ColumnId::Name],
        "a table with no room at all still says what its rows are"
    );
    assert_eq!(
        ids(&TableLayout::new(&repository_columns()).visible_columns(0)),
        vec![ColumnId::Registry, ColumnId::Repository],
    );
    // The tags table pins only its name, so it is the one that can be cut
    // back to a single column.
    assert_eq!(
        ids(&TableLayout::new(&tag_columns()).visible_columns(0)),
        vec![ColumnId::Tag],
    );
}

#[test]
fn each_table_drops_its_optional_columns_in_turn() {
    let repositories = TableLayout::new(&repository_columns());
    assert_eq!(
        ids(&repositories.visible_columns(200)),
        vec![
            ColumnId::Registry,
            ColumnId::Repository,
            ColumnId::Tags,
            ColumnId::Updated,
        ],
        "Manifests and Created are offered, not opened with"
    );
    assert_eq!(
        ids(&repositories.visible_columns(45)),
        vec![ColumnId::Registry, ColumnId::Repository, ColumnId::Tags],
        "Updated goes before the count that is the point of the row"
    );

    let tags = TableLayout::new(&tag_columns());
    assert_eq!(
        ids(&tags.visible_columns(70)),
        vec![
            ColumnId::Tag,
            ColumnId::Digest,
            ColumnId::Created,
            ColumnId::Updated,
        ]
    );
    assert_eq!(
        ids(&tags.visible_columns(50)),
        vec![ColumnId::Tag, ColumnId::Digest, ColumnId::Created],
    );
}

#[test]
fn a_hidden_column_holds_its_place_until_it_is_turned_on() {
    let mut layout = TableLayout::new(&repository_columns());
    let manifests = layout
        .columns
        .iter()
        .position(|column| column.id == ColumnId::Manifests)
        .expect("the table offers a Manifests column");
    assert!(!layout.columns[manifests].visible, "nobody asked for it");

    layout.columns[manifests].visible = true;
    assert_eq!(
        ids(&layout.visible_columns(200)),
        vec![
            ColumnId::Registry,
            ColumnId::Repository,
            ColumnId::Tags,
            ColumnId::Manifests,
            ColumnId::Updated,
        ],
        "and it comes back where it always was"
    );
}

#[test]
fn a_column_is_turned_on_and_off_by_name() {
    let mut layout = TableLayout::new(&repository_columns());
    layout.set_visible(ColumnId::Manifests, true);
    layout.set_visible(ColumnId::Tags, false);
    assert_eq!(
        ids(&layout.visible_columns(200)),
        vec![
            ColumnId::Registry,
            ColumnId::Repository,
            ColumnId::Manifests,
            ColumnId::Updated,
        ]
    );
    assert_eq!(layout.position(ColumnId::Registry), 0);
    assert_eq!(layout.position(ColumnId::Vault), layout.columns.len());
}

#[test]
fn every_key_is_its_own_and_survives_the_round_trip() {
    let mut keys: Vec<&str> = ColumnId::all().iter().map(|id| id.key()).collect();
    keys.sort_unstable();
    let count = keys.len();
    keys.dedup();
    assert_eq!(keys.len(), count, "two columns cannot share a session key");

    for id in ColumnId::all() {
        assert_eq!(ColumnId::from_key(id.key()), Some(id));
        let spec = id.spec();
        assert!(
            spec.key.chars().all(|c| c.is_ascii_lowercase() || c == '_'),
            "{spec:?} is not a stable lowercase key"
        );
        assert!(
            u16::try_from(spec.label.chars().count()).unwrap() <= spec.width.max(spec.min),
            "{spec:?} cannot show its own header"
        );
    }
    assert_eq!(ColumnId::from_key("state"), None, "an older build's column");
    // The two that could have collided: the tag itself and how many of them a
    // repository has.
    assert_ne!(ColumnId::Tag.key(), ColumnId::Tags.key());
}

#[test]
fn the_flexible_column_fills_and_the_rest_are_what_they_say() {
    let columns = TableLayout::new(&secret_columns()).visible_columns(120);
    let constraints: Vec<_> = columns.into_iter().map(TableLayout::constraint).collect();
    assert_eq!(constraints[0], Constraint::Length(12));
    assert_eq!(
        constraints[1],
        Constraint::Fill(1),
        "the name takes the rest"
    );
    assert_eq!(constraints[2], Constraint::Length(7));

    assert_eq!(
        TableLayout::available_width(100),
        97,
        "the marker and the scrollbar are spent first"
    );
    assert_eq!(TableLayout::available_width(2), 0, "and cannot overdraw");
}
