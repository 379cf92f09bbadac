use az_tui::azure::auth::FixedTokens;
use az_tui::azure::fake::{client as fake_client, Answer, FakeTransport, Waits};
use az_tui::azure::json::Json;
use az_tui::azure::transport::Client;
use az_tui::azure::{Inventory, Repository, SecretRow, Vault};
use az_tui::cache::{CachedTab, Snapshot};
use az_tui::commands::read::Context;
use az_tui::commands::{
    narrow, none_reachable, partial, repos, secret_get, secrets, tags, Failure, Output,
    BAD_ARGUMENTS, FAILED,
};
use az_tui::config::{Azure, SECRETS_TAB};
use az_tui::timestamp::{Moment, Timestamp};

fn now() -> Timestamp {
    Timestamp::parse("2026-09-11T20:00:00Z").unwrap()
}

fn inventory_answer() -> Answer {
    Answer::ok(
        r#"{"data":[
        {"id":"/vaults/kv-dev","name":"kv-dev","type":"microsoft.keyvault/vaults","subscriptionId":"s","resourceGroup":"rg","location":"eastus","sku":"standard","vaultUri":"https://kv-dev.vault.azure.net/","loginServer":""},
        {"id":"/vaults/kv-prod","name":"kv-prod","type":"microsoft.keyvault/vaults","subscriptionId":"s","resourceGroup":"rg","location":"eastus","sku":"standard","vaultUri":"https://kv-prod.vault.azure.net/","loginServer":""},
        {"id":"/registries/acrprod","name":"acrprod","type":"microsoft.containerregistry/registries","subscriptionId":"s","resourceGroup":"rg","location":"eastus","sku":"Premium","loginServer":"acrprod.azurecr.io","vaultUri":""}
        ]}"#,
    )
}

fn listing(vault: &str, names: &[&str]) -> Answer {
    let entries: Vec<String> = names
        .iter()
        .map(|name| {
            format!(
                r#"{{"id":"https://{vault}.vault.azure.net/secrets/{name}","contentType":"text/plain","attributes":{{"enabled":true,"updated":1789156800}}}}"#
            )
        })
        .collect();
    Answer::ok(&format!(r#"{{"value":[{}]}}"#, entries.join(",")))
}

fn context(azure: &Azure) -> Context<'_> {
    Context {
        azure,
        // No cache: most of these are about what the commands read and print,
        // not about when they skip reading.
        cache: None,
        now: now(),
    }
}

fn text(output: Output) -> String {
    output.text().unwrap()
}

/// What a script reads out of what was printed.
fn document(output: Output) -> Json {
    let printed = text(output);
    assert!(printed.ends_with('\n'), "{printed}");
    Json::parse(&printed).unwrap()
}

fn said(value: &str) -> Option<Json> {
    Some(Json::Text(value.to_owned()))
}

/// Whether any object in a document has that key.
fn has_key(document: &Json, key: &str) -> bool {
    match document {
        Json::Object(fields) => fields
            .iter()
            .any(|(held, value)| held == key || has_key(value, key)),
        Json::List(items) => items.iter().any(|item| has_key(item, key)),
        _ => false,
    }
}

#[test]
fn secrets_prints_one_line_per_secret_and_the_query_narrows_it() {
    let azure = Azure::default();
    let mut client = fake_client(vec![
        inventory_answer(),
        listing("kv-dev", &["api-key", "db-password"]),
        listing("kv-prod", &["db-password"]),
    ]);
    let (output, failed) = secrets(
        &mut client,
        &context(&azure),
        "db",
        &Vec::new(),
        false,
        true,
    )
    .unwrap();
    assert!(failed.is_none());
    let printed = text(output);
    assert_eq!(printed.lines().count(), 2, "{printed}");
    assert!(
        printed.contains("kv-dev           db-password"),
        "{printed}"
    );
    assert!(
        printed.contains("kv-prod          db-password"),
        "{printed}"
    );
    assert!(!printed.contains("api-key"), "{printed}");
}

#[test]
fn the_json_of_a_listing_can_never_carry_a_value() {
    let azure = Azure::default();
    let mut client = fake_client(vec![
        inventory_answer(),
        listing("kv-dev", &["api-key"]),
        listing("kv-prod", &[]),
    ]);
    let (output, _) =
        secrets(&mut client, &context(&azure), "", &Vec::new(), true, true).unwrap();
    let document = document(output);
    let items = document.items().unwrap();
    assert_eq!(items.len(), 1);
    assert_eq!(items[0].get("name"), said("api-key").as_ref());
    assert_eq!(
        items[0].get("updated"),
        said("2026-09-11T20:00:00Z").as_ref()
    );
    assert_eq!(items[0].get("expires"), Some(&Json::Null));
    assert!(
        !has_key(&document, "value"),
        "`secrets` has no field for one and must never grow one: {document:?}"
    );
}

#[test]
fn a_vault_flag_narrows_what_is_read_at_all() {
    let azure = Azure::default();
    let mut client = fake_client(vec![inventory_answer(), listing("kv-prod", &["db-password"])]);
    let (output, _) = secrets(
        &mut client,
        &context(&azure),
        "",
        &vec!["kv-prod".to_owned()],
        false,
        true,
    )
    .unwrap();
    assert!(text(output).contains("kv-prod"));
    assert_eq!(
        client.transport.urls().len(),
        2,
        "the inventory and one vault, not both vaults"
    );
}

#[test]
fn secret_get_prints_the_value_and_nothing_else() {
    let azure = Azure::default();
    let mut client = fake_client(vec![
        inventory_answer(),
        listing("kv-dev", &["api-key"]),
        listing("kv-prod", &[]),
        Answer::ok(
            r#"{"value":"s3cr3t","id":"https://kv-dev.vault.azure.net/secrets/api-key/8f3a2c1d"}"#,
        ),
    ]);
    let output = secret_get(&mut client, &context(&azure), "api-key", None, None, false).unwrap();
    assert_eq!(
        text(output),
        "s3cr3t",
        "no trailing newline of its own: $(az-tui secret get …) is the value"
    );
}

#[test]
fn secret_get_keeps_a_value_that_ends_in_a_newline() {
    let azure = Azure::default();
    let mut client = fake_client(vec![
        inventory_answer(),
        listing("kv-dev", &["pem"]),
        listing("kv-prod", &[]),
        Answer::ok(
            r#"{"value":"-----BEGIN-----\nabc\n","id":"https://kv-dev.vault.azure.net/secrets/pem/v1"}"#,
        ),
    ]);
    let output = secret_get(&mut client, &context(&azure), "pem", None, None, false).unwrap();
    assert_eq!(text(output), "-----BEGIN-----\nabc\n");
}

#[test]
fn secret_get_refuses_to_guess_when_two_vaults_hold_the_name() {
    let azure = Azure::default();
    let mut client = fake_client(vec![
        inventory_answer(),
        listing("kv-dev", &["db-password"]),
        listing("kv-prod", &["db-password"]),
    ]);
    let failure = secret_get(
        &mut client,
        &context(&azure),
        "db-password",
        None,
        None,
        false,
    )
    .unwrap_err();
    assert_eq!(failure.code, BAD_ARGUMENTS);
    assert!(
        failure.message.contains("kv-dev, kv-prod"),
        "{}",
        failure.message
    );
    assert!(failure.message.contains("--vault"), "{}", failure.message);
    assert_eq!(client.transport.sent.len(), 3, "and no value was read");
}

#[test]
fn a_missing_login_says_the_two_words_that_fix_it() {
    let mut tokens = FixedTokens::new();
    for _ in 0..4 {
        tokens.answers.push(Err("stack".to_owned()));
    }
    let mut client = Client::new(
        tokens,
        FakeTransport::answering(vec![]),
        Waits::standing_at(Moment::of(now())),
    );
    let azure = Azure::default();
    let failure =
        secrets(&mut client, &context(&azure), "", &Vec::new(), false, true).unwrap_err();
    assert_eq!(failure.message, "not signed in — run `az login` (stack)");
    assert_eq!(failure.code, FAILED);
}

#[test]
fn an_expiry_prints_as_the_table_says_it_expired_or_marked_soon() {
    let azure = Azure::default();
    let soon = now().seconds + 3 * 86_400;
    let mut client = fake_client(vec![
        inventory_answer(),
        Answer::ok(&format!(
            r#"{{"value":[
            {{"id":"https://kv-dev.vault.azure.net/secrets/gone","attributes":{{"exp":1000000000}}}},
            {{"id":"https://kv-dev.vault.azure.net/secrets/soon","attributes":{{"exp":{soon}}}}}
            ]}}"#
        )),
        listing("kv-prod", &[]),
    ]);
    let (output, _) =
        secrets(&mut client, &context(&azure), "", &Vec::new(), false, true).unwrap();
    let printed = text(output);
    let gone = printed
        .lines()
        .find(|line| line.contains(" gone "))
        .unwrap();
    assert!(gone.contains("expired"), "{printed}");
    let soon = printed
        .lines()
        .find(|line| line.contains(" soon "))
        .unwrap();
    assert!(soon.contains("⚠"), "{printed}");
    assert!(!soon.contains("expired"), "{printed}");
}

#[test]
fn a_reader_that_went_away_is_a_clean_exit_with_nothing_said() {
    let failure = Failure::of_write(true, "broken pipe".to_owned());
    assert_eq!(failure.code, 0);
    assert!(failure.message.is_empty());
    let failure = Failure::of_write(false, "permission denied".to_owned());
    assert_eq!(failure.code, FAILED);
}

#[test]
fn a_vault_the_allowlist_leaves_out_says_so_rather_than_that_the_login_cannot_reach_it() {
    let azure = Azure {
        vaults: vec!["kv-dev".into()],
        ..Azure::default()
    };
    let mut client = fake_client(vec![inventory_answer()]);
    let failure = secrets(
        &mut client,
        &context(&azure),
        "",
        &vec!["kv-prod".to_owned()],
        false,
        true,
    )
    .unwrap_err();
    assert_eq!(failure.code, BAD_ARGUMENTS);
    assert!(
        failure
            .message
            .contains("kv-prod is left out by [azure].vaults / --vault (allowed: kv-dev)"),
        "{}",
        failure.message
    );
    assert!(
        !failure.message.contains("login can reach"),
        "{}",
        failure.message
    );
}

#[test]
fn a_name_nothing_holds_is_a_read_failure_rather_than_an_argument_one() {
    let azure = Azure::default();
    let mut client = fake_client(vec![
        inventory_answer(),
        listing("kv-dev", &["api-key"]),
        listing("kv-prod", &["api-key"]),
    ]);
    let failure =
        secret_get(&mut client, &context(&azure), "nope", None, None, false).unwrap_err();
    assert_eq!(failure.code, FAILED);
    assert!(
        failure.message.contains("no secret called nope"),
        "{}",
        failure.message
    );
}

#[test]
fn secret_get_with_no_vault_answering_reports_the_refusals_not_a_missing_name() {
    let azure = Azure::default();
    let mut client = fake_client(vec![
        inventory_answer(),
        Answer::status(403, r#"{"error":{"message":"kv-dev says no"}}"#),
        Answer::status(403, r#"{"error":{"message":"kv-prod says no"}}"#),
    ]);
    let failure = secret_get(
        &mut client,
        &context(&azure),
        "db-password",
        None,
        None,
        false,
    )
    .unwrap_err();
    assert_eq!(failure.code, FAILED);
    assert!(
        !failure.message.contains("no secret called"),
        "{}",
        failure.message
    );
    assert!(failure.message.contains("kv-dev"), "{}", failure.message);
    assert!(failure.message.contains("kv-prod"), "{}", failure.message);
}

#[test]
fn secret_get_json_names_the_vault_and_the_version_it_read() {
    let azure = Azure::default();
    let mut client = fake_client(vec![
        inventory_answer(),
        listing("kv-dev", &["api-key"]),
        listing("kv-prod", &[]),
        Answer::ok(
            r#"{"value":"s3cr3t","id":"https://kv-dev.vault.azure.net/secrets/api-key/8f3a2c1d"}"#,
        ),
    ]);
    let output = secret_get(&mut client, &context(&azure), "api-key", None, None, true).unwrap();
    let document = document(output);
    assert_eq!(document.get("vault"), said("kv-dev").as_ref());
    assert_eq!(document.get("version"), said("8f3a2c1d").as_ref());
    assert_eq!(document.get("content_type"), said("text/plain").as_ref());
    assert_eq!(document.get("value"), said("s3cr3t").as_ref());
}

#[test]
fn repos_and_tags_print_what_a_script_would_pull() {
    let azure = Azure::default();
    let mut client = fake_client(vec![
        inventory_answer(),
        Answer::ok(r#"{"refresh_token":"r"}"#),
        Answer::ok(r#"{"access_token":"a"}"#),
        Answer::ok(r#"{"repositories":["payments-api","web"]}"#),
    ]);
    let (output, _) = repos(
        &mut client,
        &context(&azure),
        "pay",
        &Vec::new(),
        false,
        true,
    )
    .unwrap();
    let printed = text(output);
    assert_eq!(printed.lines().count(), 1, "{printed}");
    assert!(printed.contains("acrprod"), "{printed}");
    assert!(printed.contains("payments-api"), "{printed}");

    let mut client = fake_client(vec![
        inventory_answer(),
        Answer::ok(r#"{"refresh_token":"r"}"#),
        Answer::ok(r#"{"access_token":"a"}"#),
        Answer::ok(r#"{"repositories":["payments-api"]}"#),
        Answer::ok(r#"{"access_token":"repo"}"#),
        Answer::ok(
            r#"{"tags":[{"name":"1.42.0","digest":"sha256:ab12ef0199","lastUpdateTime":"2026-09-11T18:00:00Z"}]}"#,
        ),
    ]);
    let output = tags(&mut client, &context(&azure), "payments-api", None, true).unwrap();
    let document = document(output);
    let items = document.items().unwrap();
    assert_eq!(items[0].get("tag"), said("1.42.0").as_ref());
    assert_eq!(
        items[0].get("digest"),
        said("sha256:ab12ef0199").as_ref(),
        "the whole digest, not the short one"
    );
    assert_eq!(
        items[0].get("pull"),
        said("acrprod.azurecr.io/payments-api:1.42.0").as_ref(),
        "the reference a script feeds to docker pull"
    );
}

#[test]
fn a_vault_that_would_not_answer_is_the_exit_code_after_the_rows_that_did() {
    let azure = Azure::default();
    let mut client = fake_client(vec![
        inventory_answer(),
        listing("kv-dev", &["api-key"]),
        Answer::status(403, r#"{"error":{"code":"Forbidden","message":"no"}}"#),
    ]);
    let (output, failed) =
        secrets(&mut client, &context(&azure), "", &Vec::new(), false, true).unwrap();
    let failure = failed.unwrap();
    assert_eq!(failure.code, FAILED);
    assert!(failure.message.contains("kv-prod"), "{}", failure.message);
    assert!(
        text(output).contains("api-key"),
        "the rows that answered were still printed"
    );
}

#[test]
fn a_vault_the_login_cannot_reach_is_an_argument_error_that_names_the_ones_it_can() {
    let azure = Azure::default();
    let mut client = fake_client(vec![inventory_answer()]);
    let failure = secrets(
        &mut client,
        &context(&azure),
        "",
        &vec!["kv-typo".to_owned()],
        false,
        true,
    )
    .unwrap_err();
    assert_eq!(failure.code, BAD_ARGUMENTS);
    assert!(
        failure.message.contains("no vault called kv-typo"),
        "{}",
        failure.message
    );
    assert!(
        failure.message.contains("kv-dev, kv-prod"),
        "{}",
        failure.message
    );

    let mut client = fake_client(vec![inventory_answer()]);
    let failure =
        secret_get(&mut client, &context(&azure), "x", Some("kv-x"), None, false).unwrap_err();
    assert_eq!(failure.code, BAD_ARGUMENTS);
    assert!(
        failure.message.contains("kv-dev, kv-prod"),
        "{}",
        failure.message
    );
}

/// One Azure read as the cache holds it: the two fixed tabs, no scopes.
fn azure_cache(
    read_at: Timestamp,
    inventory: Inventory,
    secrets: Vec<SecretRow>,
    repositories: Vec<Repository>,
) -> Snapshot {
    Snapshot::new(
        CachedTab::azure(read_at, inventory, secrets, repositories)
            .into_iter()
            .collect(),
    )
}

#[test]
fn a_cache_young_enough_is_read_instead_of_azure() {
    let snapshot = azure_cache(
        now(),
        Inventory {
            vaults: vec![Vault {
                id: "/vaults/kv-cached".into(),
                name: "kv-cached".into(),
                resource_group: "rg".into(),
                location: "eastus".into(),
                uri: "https://kv-cached.vault.azure.net/".into(),
            }],
            registries: Vec::new(),
        },
        vec![SecretRow {
            vault: "kv-cached".into(),
            name: "from-the-cache".into(),
            enabled: true,
            created: None,
            updated: None,
            expires: None,
            not_before: None,
            content_type: None,
            tags: Vec::new(),
            managed: false,
        }],
        Vec::new(),
    );

    let azure = Azure::default();
    // No answers at all: reading one would be a failure, which is exactly the
    // assertion.
    let mut client = fake_client(vec![]);
    let context = Context {
        azure: &azure,
        cache: Some(&snapshot),
        now: now(),
    };
    let (output, _) = secrets(&mut client, &context, "", &Vec::new(), false, false).unwrap();
    assert!(text(output).contains("from-the-cache"));
    assert!(client.transport.sent.is_empty(), "nothing went out");

    // `--vault` narrows the cache the way it narrows Azure: without regard to
    // case.
    let (output, _) = secrets(
        &mut client,
        &context,
        "",
        &vec!["KV-CACHED".to_owned()],
        false,
        false,
    )
    .unwrap();
    assert!(text(output).contains("from-the-cache"));

    // `--refresh` goes and looks whatever the cache holds.
    let mut client = fake_client(vec![
        inventory_answer(),
        listing("kv-dev", &[]),
        listing("kv-prod", &[]),
    ]);
    secrets(&mut client, &context, "", &Vec::new(), false, true).unwrap();
    assert!(!client.transport.sent.is_empty());
}

#[test]
fn a_cache_older_than_the_refresh_interval_is_not_used() {
    let long_ago = Timestamp::parse("2020-01-01T00:00:00Z").unwrap();
    let snapshot = azure_cache(long_ago, Inventory::default(), Vec::new(), Vec::new());

    let azure = Azure::default();
    let mut client = fake_client(vec![
        inventory_answer(),
        listing("kv-dev", &["a"]),
        listing("kv-prod", &[]),
    ]);
    let context = Context {
        azure: &azure,
        cache: Some(&snapshot),
        now: now(),
    };
    secrets(&mut client, &context, "", &Vec::new(), false, false).unwrap();
    assert!(
        !client.transport.sent.is_empty(),
        "a stale cache is not an answer"
    );
}

#[test]
fn a_cache_with_only_the_other_tab_is_not_an_answer() {
    let mut fresh = azure_cache(now(), Inventory::default(), Vec::new(), Vec::new());
    fresh.tabs.retain(|(key, _)| key != SECRETS_TAB);

    let azure = Azure::default();
    let mut client = fake_client(vec![
        inventory_answer(),
        listing("kv-dev", &["a"]),
        listing("kv-prod", &[]),
    ]);
    let context = Context {
        azure: &azure,
        cache: Some(&fresh),
        now: now(),
    };
    secrets(&mut client, &context, "", &Vec::new(), false, false).unwrap();
    assert!(
        !client.transport.sent.is_empty(),
        "a registries-only cache says nothing about secrets"
    );
}

#[test]
fn a_refresh_of_nought_keeps_the_cache_for_good() {
    let long_ago = Timestamp::parse("2020-01-01T00:00:00Z").unwrap();
    let snapshot = azure_cache(long_ago, Inventory::default(), Vec::new(), Vec::new());
    let azure = Azure {
        refresh: Some(0),
        ..Azure::default()
    };
    let context = Context {
        azure: &azure,
        cache: Some(&snapshot),
        now: now(),
    };
    let mut client = fake_client(vec![]);
    let (output, _) = secrets(&mut client, &context, "", &Vec::new(), false, false).unwrap();
    assert_eq!(text(output), "");
    assert!(client.transport.sent.is_empty());
}

#[test]
fn nothing_reachable_says_what_was_asked_for() {
    assert_eq!(
        none_reachable("vault", &Vec::new()).message,
        "the login can reach no vaults"
    );
    assert_eq!(
        none_reachable("registry", &vec!["a".to_owned(), "b".to_owned()]).message,
        "the login can reach none of [azure].registries / --registry (a, b)"
    );
    let failure = narrow(
        Vec::<String>::new(),
        &Vec::new(),
        &vec!["x".to_owned()],
        "vault",
    )
    .unwrap_err();
    assert_eq!(
        failure.message,
        "no vault called x; the login can reach no vault"
    );
    assert!(partial(&Vec::new()).is_none());
    assert_eq!(
        partial(&vec!["a".to_owned(), "b".to_owned()]).unwrap().message,
        "a; b"
    );
}

#[test]
fn tags_in_two_registries_are_not_guessed_at_either() {
    let azure = Azure::default();
    let mut client = fake_client(vec![
        inventory_answer(),
        Answer::ok(r#"{"refresh_token":"r"}"#),
        Answer::ok(r#"{"access_token":"a"}"#),
        Answer::ok(r#"{"repositories":["web"]}"#),
    ]);
    let failure = tags(&mut client, &context(&azure), "api", None, false).unwrap_err();
    assert_eq!(failure.code, FAILED);
    assert_eq!(failure.message, "no repository called api in acrprod");
}

#[test]
fn a_tags_line_is_the_name_the_short_digest_and_the_age() {
    let azure = Azure::default();
    let mut client = fake_client(vec![
        inventory_answer(),
        Answer::ok(r#"{"refresh_token":"r"}"#),
        Answer::ok(r#"{"access_token":"a"}"#),
        Answer::ok(r#"{"repositories":["api"]}"#),
        Answer::ok(r#"{"access_token":"b"}"#),
        Answer::ok(
            r#"{"tags":[{"name":"1.0","digest":"sha256:0123456789","lastUpdateTime":"2026-09-11T18:00:00Z"}]}"#,
        ),
    ]);
    let output = tags(&mut client, &context(&azure), "api", Some("acrprod"), false).unwrap();
    assert_eq!(
        text(output),
        "1.0                            sha256:01234567      2h\n"
    );
}

// ── What a document looks like ─────────────────────────────────────────

#[test]
fn a_document_is_written_with_its_keys_in_order_and_each_once() {
    let document = Json::Object(vec![
        ("b".to_owned(), Json::Number(Some(2))),
        ("a".to_owned(), Json::Text("1\n\"".to_owned())),
        ("b".to_owned(), Json::List(vec![Json::Null, Json::Bool(true)])),
    ]);
    assert_eq!(
        document.compact(),
        r#"{"a":"1\n\"","b":[null,true]}"#,
        "the later of two fields under one key"
    );
    assert_eq!(
        document.pretty().unwrap(),
        "{\n  \"a\": \"1\\n\\\"\",\n  \"b\": [\n    null,\n    true\n  ]\n}"
    );
    assert_eq!(
        Output::Compact(document).text().unwrap(),
        "{\"a\":\"1\\n\\\"\",\"b\":[null,true]}\n"
    );
}

#[test]
fn a_number_is_written_whole_or_not_at_all() {
    for (held, said) in [
        (Some(i128::from(u64::MAX)), "18446744073709551615"),
        (Some(i128::from(i64::MIN)), "-9223372036854775808"),
        (Some(0), "0"),
        (Some(i128::from(u64::MAX) + 1), "null"),
        (Some(i128::from(i64::MIN) - 1), "null"),
        (None, "null"),
    ] {
        assert_eq!(Json::Number(held).compact(), said);
    }
}

#[test]
fn a_value_is_printed_as_it_is_and_a_document_ends_its_line() {
    assert_eq!(Output::Raw("s3cr3t".to_owned()).text().unwrap(), "s3cr3t");
    assert_eq!(Output::Raw("line\n".to_owned()).text().unwrap(), "line\n");
    assert_eq!(
        Output::Document(Json::List(Vec::new())).text().unwrap(),
        "[]\n"
    );
}
