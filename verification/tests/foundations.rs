use std::cmp::Ordering;

use az_tui::azure::allow::{allowed, missing};
use az_tui::azure::encode::{form_encode, segment};
use az_tui::azure::waits::{hms_seconds, retry_after, DEFAULT_RETRY_AFTER, MAX_RETRY_AFTER};
use az_tui::filter::{env_choice, env_of_query, env_position, with_env, Env, Query, When};
use az_tui::input::{KeyCode, KeyEvent, TextInput};
use az_tui::order::{
    cmp_ignore_ascii_case, compare_counts, compare_names, compare_stamps, flip, then_with,
};
use az_tui::text::{
    equal_ignoring_case, holds, is_blank, join, last_part, lines, number, parse_whole, split,
    to_lower, trim, trim_trailing,
};
use az_tui::timestamp::{age, Moment, Timestamp, EARLIEST, LATEST, SECOND};

fn ts(raw: &str) -> Timestamp {
    Timestamp::parse(raw).unwrap()
}

// ── Text ───────────────────────────────────────────────────────────────

#[test]
fn text_is_trimmed_split_and_joined_again() {
    assert_eq!(trim("  a b\t\n"), "a b");
    assert_eq!(trim(""), "");
    assert!(is_blank(" \t"));
    assert!(!is_blank(" x "));
    assert_eq!(split("a,,b", ','), ["a", "", "b"]);
    assert_eq!(join(&split("a,,b", ','), ","), "a,,b");
    assert_eq!(last_part("x/y/z", '/'), "z");
    assert_eq!(trim_trailing("host//", '/'), "host");
    assert_eq!(lines("one\r\ntwo\n"), ["one", "two"]);
}

#[test]
fn a_number_is_spelled_and_read_back() {
    for n in [0, 7, 10, 65_535, u64::MAX] {
        assert_eq!(number(n), n.to_string());
        assert_eq!(parse_whole(&number(n)), Some(n));
    }
    assert_eq!(parse_whole(""), None);
    assert_eq!(parse_whole("12x"), None);
    assert_eq!(parse_whole("18446744073709551616"), None, "past 64 bits");
}

#[test]
fn case_is_ignored_among_the_letters_alone() {
    assert!(equal_ignoring_case("KV-Prod", "kv-prod"));
    assert!(!equal_ignoring_case("kv-prod", "kv_prod"));
    assert_eq!(to_lower("KV-Prod 9"), "kv-prod 9");
    assert!(holds("orders-api", "ers-a"));
    assert!(!holds("orders-api", "api-"));
}

// ── Moments ────────────────────────────────────────────────────────────

#[test]
fn a_moment_is_read_and_written_in_rfc_3339() {
    let at = ts("2026-09-11T20:00:00Z");
    assert_eq!(at.seconds, 1_789_156_800);
    assert_eq!(at.to_rfc3339().as_deref(), Some("2026-09-11T20:00:00Z"));
    assert_eq!(ts("2026-09-11T22:00:00+02:00"), at);
    assert_eq!(Timestamp::parse("2026-09-11"), None);
    assert_eq!(Timestamp::parse(""), None);
}

#[test]
fn the_calendar_has_two_ends() {
    assert_eq!(
        Timestamp::from_unix(LATEST),
        Some(Timestamp { seconds: LATEST })
    );
    assert_eq!(Timestamp::from_unix(LATEST + 1), None);
    assert_eq!(
        Timestamp::from_unix(EARLIEST),
        Some(Timestamp { seconds: EARLIEST })
    );
    assert_eq!(Timestamp::from_unix(EARLIEST - 1), None);
    assert_eq!(Timestamp { seconds: LATEST + 1 }.to_rfc3339(), None);
}

#[test]
fn an_age_is_one_number_and_one_unit() {
    let now = ts("2026-09-11T20:00:00Z");
    let ago = |seconds: i64| {
        age(
            Some(Timestamp {
                seconds: now.seconds - seconds,
            }),
            now,
        )
    };
    assert_eq!(ago(0), "now");
    assert_eq!(ago(59), "59s");
    assert_eq!(ago(60), "1m");
    assert_eq!(ago(3_599), "59m");
    assert_eq!(ago(3_600), "1h");
    assert_eq!(ago(86_400), "1d");
    assert_eq!(ago(-172_800), "2d", "ahead reads as far off as behind");
    assert_eq!(age(None, now), "—");
    let first = Timestamp { seconds: i64::MIN };
    let last = Timestamp { seconds: i64::MAX };
    assert_eq!(first.seconds_until(last), i64::MAX);
    assert_eq!(last.seconds_until(first), i64::MIN);
}

// ── Order ──────────────────────────────────────────────────────────────

#[test]
fn what_has_not_arrived_is_last_whichever_way_the_sort_points() {
    for descending in [false, true] {
        assert_eq!(compare_counts(Some(1), None, descending), Ordering::Less);
        assert_eq!(compare_counts(None, Some(1), descending), Ordering::Greater);
        assert_eq!(compare_counts(None, None, descending), Ordering::Equal);
        assert_eq!(
            compare_stamps(Some(Timestamp { seconds: 0 }), None, descending),
            Ordering::Less
        );
    }
    assert_eq!(compare_counts(Some(1), Some(2), false), Ordering::Less);
    assert_eq!(compare_counts(Some(1), Some(2), true), Ordering::Greater);
}

#[test]
fn names_are_ordered_by_their_letters_whatever_their_case() {
    assert_eq!(cmp_ignore_ascii_case("Alpha", "beta"), Ordering::Less);
    assert_eq!(cmp_ignore_ascii_case("ALPHA", "alpha"), Ordering::Equal);
    assert_eq!(cmp_ignore_ascii_case("a", "ab"), Ordering::Less);
    assert_eq!(compare_names("a", "b", true), Ordering::Greater);
    assert_eq!(flip(Ordering::Less, true), Ordering::Greater);
    assert_eq!(
        then_with(Ordering::Equal, Ordering::Less),
        Ordering::Less,
        "a tie is broken by the second"
    );
    assert_eq!(then_with(Ordering::Greater, Ordering::Less), Ordering::Greater);
}

// ── Queries ────────────────────────────────────────────────────────────

#[test]
fn a_query_is_words_and_the_fields_the_table_knows() {
    let query = Query::parse("Db vault:kv-prod other:x", &vec!["vault"]);
    assert_eq!(query.fields, [("vault".to_owned(), "kv-prod".to_owned())]);
    assert_eq!(query.words.len(), 2, "an unknown key is a word like any other");
}

#[test]
fn an_environment_is_put_into_a_query_and_read_back_out_of_it() {
    for at in 0..4 {
        assert_eq!(env_position(env_choice(at)), at);
    }
    assert_eq!(with_env("db", Some(Env::Prod)), "db env:prod");
    assert_eq!(with_env("db env:prod", Some(Env::Dev)), "db env:dev");
    assert_eq!(with_env("db env:prod", None), "db");
    assert_eq!(env_of_query("db env:qa"), Some(Env::Qa));
    assert_eq!(env_of_query("db"), None);
}

#[test]
fn a_bound_in_time_is_a_sign_a_number_and_a_unit() {
    let now = ts("2026-09-11T20:00:00Z");
    let ahead = |seconds: i64| {
        Some(Timestamp {
            seconds: now.seconds + seconds,
        })
    };
    let week = When::parse("<1w").unwrap();
    assert!(week.holds(ahead(604_799), now));
    assert!(!week.holds(ahead(604_800), now));
    assert!(!week.holds(None, now));
    let old = When::parse(">30d").unwrap();
    assert!(old.holds_age(ahead(-2_592_001), now));
    assert!(!old.holds_age(ahead(-2_592_000), now));
    for bad in ["", "<", "30d", "<30", "<xd", "<30y"] {
        assert_eq!(When::parse(bad), None, "{bad:?}");
    }
}

// ── The box ────────────────────────────────────────────────────────────

#[test]
fn a_character_typed_and_rubbed_out_leaves_the_box_as_it_was() {
    let mut input = TextInput::new("abc");
    input.handle_key(KeyEvent::plain(KeyCode::Left));
    input.handle_key(KeyEvent::plain(KeyCode::Char('x')));
    assert_eq!(input.text(), "abxc");
    input.handle_key(KeyEvent::plain(KeyCode::Backspace));
    assert_eq!(input.text(), "abc");
    input.handle_key(KeyEvent::plain(KeyCode::Delete));
    assert_eq!(input.text(), "ab");
    input.handle_key(KeyEvent::plain(KeyCode::Home));
    input.handle_key(KeyEvent::plain(KeyCode::Left));
    input.handle_key(KeyEvent::plain(KeyCode::Backspace));
    assert_eq!(input.text(), "ab", "there is nothing before the start");
    input.paste("1\n2");
    assert_eq!(input.text(), "1 2ab");
    input.handle_key(KeyEvent {
        control: true,
        ..KeyEvent::plain(KeyCode::Char('u'))
    });
    assert!(input.is_empty());
}

// ── What goes out, and how long is waited ──────────────────────────────

#[test]
fn no_two_texts_are_escaped_alike() {
    let raw = ["a/b", "a%2Fb", "a b", "a+b", "é", "e\u{301}", ""];
    let escaped: Vec<String> = raw.iter().map(|text| segment(text)).collect();
    for (i, one) in escaped.iter().enumerate() {
        assert!(one.chars().all(|c| c.is_ascii_alphanumeric() || "-._~%+".contains(c)));
        for other in &escaped[i + 1..] {
            assert_ne!(one, other);
        }
    }
    assert_eq!(segment("a/b"), "a%2Fb");
    assert_eq!(
        form_encode(&vec![("a b".to_owned(), "1&2".to_owned())]),
        "a+b=1%262"
    );
}

#[test]
fn a_wait_is_never_longer_than_an_hour_and_a_strange_one_is_half_a_minute() {
    let now = Moment::of(ts("2026-09-11T20:00:00Z"));
    assert_eq!(retry_after(Some("12"), now), 12 * SECOND);
    assert_eq!(retry_after(Some("99999999"), now), MAX_RETRY_AFTER);
    assert_eq!(retry_after(Some("-5"), now), SECOND);
    assert_eq!(retry_after(Some("soon"), now), DEFAULT_RETRY_AFTER);
    assert_eq!(retry_after(None, now), DEFAULT_RETRY_AFTER);
    assert_eq!(
        retry_after(Some("Fri, 11 Sep 2026 20:01:40 GMT"), now),
        100 * SECOND,
        "a date is waited for"
    );
    assert_eq!(hms_seconds("00:01:05"), Some(65));
    assert_eq!(hms_seconds("1:05"), Some(65));
    assert_eq!(hms_seconds("65"), None);
    assert_eq!(hms_seconds("0:x"), None);
}

#[test]
fn every_name_of_an_allowlist_is_found_or_missing() {
    let found: Vec<String> = ["kv-b", "kv-a"].iter().map(|name| (*name).to_owned()).collect();
    let names: Vec<String> = ["KV-A", "kv-c"].iter().map(|name| (*name).to_owned()).collect();
    assert_eq!(missing(&found, &names), ["kv-c"]);
    assert_eq!(allowed(found, &names), ["kv-a"]);
    assert_eq!(
        allowed(vec!["kv-b".to_owned()], &Vec::new()),
        ["kv-b"],
        "no allowlist keeps everything"
    );
}
