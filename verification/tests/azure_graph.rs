use az_tui::azure::fake::{client as fake_client, Answer};
use az_tui::azure::graph::inventory;
use az_tui::azure::json::Json;
use az_tui::azure::transport::{Body, Request};
use az_tui::config::Azure;


fn row(kind: &str, name: &str) -> String {
    let kind_small = kind.to_ascii_lowercase();
    let login_server = if kind_small.contains("containerregistry") {
        format!("{name}.azurecr.io")
    } else {
        String::new()
    };
    let vault_uri = if kind_small.contains("keyvault") {
        format!("https://{name}.vault.azure.net/")
    } else {
        String::new()
    };
    format!(
        r#"{{"id":"/subscriptions/sub-1/resourceGroups/rg/providers/{kind}/{name}","name":"{name}","type":"{kind_small}","subscriptionId":"sub-1","resourceGroup":"rg","location":"eastus","sku":"standard","loginServer":"{login_server}","vaultUri":"{vault_uri}"}}"#
    )
}

/// One page of rows, and whatever else it says.
fn page(rows: &[String], more: &str) -> Answer {
    Answer::ok(&format!(r#"{{"data":[{}]{more}}}"#, rows.join(",")))
}

fn sent_body(request: &Request) -> &Json {
    match &request.body {
        Body::Json(body) => body,
        other => panic!("expected a JSON body, got {other:?}"),
    }
}

fn option<'a>(body: &'a Json, key: &str) -> &'a Json {
    body.get("options").unwrap().get(key).unwrap()
}

#[test]
fn two_pages_are_joined_and_the_skip_token_is_followed() {
    let mut client = fake_client(vec![
        page(
            &[row("Microsoft.KeyVault/vaults", "kv-a")],
            r#","$skipToken":"page-2""#,
        ),
        page(&[row("Microsoft.ContainerRegistry/registries", "acrb")], ""),
    ]);
    let inventory = inventory(&mut client, &Azure::default()).unwrap();
    assert_eq!(inventory.vaults.len(), 1);
    assert_eq!(inventory.vaults[0].uri, "https://kv-a.vault.azure.net/");
    assert_eq!(inventory.registries.len(), 1);
    assert_eq!(inventory.registries[0].login_server, "acrb.azurecr.io");

    let sent = &client.transport.sent;
    assert_eq!(sent.len(), 2);
    assert_eq!(
        *option(sent_body(&sent[1]), "$skipToken"),
        Json::Text("page-2".to_owned()),
        "the second page carries the token the first answered with"
    );
}

#[test]
fn a_repeated_skip_token_ends_the_paging_rather_than_looping() {
    let mut client = fake_client(vec![
        Answer::ok(r#"{"data": [], "$skipToken": "same"}"#),
        Answer::ok(r#"{"data": [], "$skipToken": "same"}"#),
    ]);
    inventory(&mut client, &Azure::default()).unwrap();
    assert_eq!(client.transport.sent.len(), 2);
}

#[test]
fn subscriptions_are_named_only_when_the_configuration_names_them() {
    let mut client = fake_client(vec![Answer::ok(r#"{"data": []}"#)]);
    inventory(&mut client, &Azure::default()).unwrap();
    let body = sent_body(&client.transport.sent[0]);
    assert!(
        body.get("subscriptions").is_none(),
        "an empty list means every subscription, which is said by saying nothing: {body:?}"
    );
    assert_eq!(*option(body, "$top"), Json::Number(Some(1000)));

    let azure = Azure {
        subscriptions: vec!["sub-1".into(), "  ".into()],
        ..Azure::default()
    };
    let mut client = fake_client(vec![Answer::ok(r#"{"data": []}"#)]);
    inventory(&mut client, &azure).unwrap();
    assert_eq!(
        sent_body(&client.transport.sent[0]).get("subscriptions"),
        Some(&Json::List(vec![Json::Text("sub-1".to_owned())])),
        "a blank entry is not a subscription"
    );
}

#[test]
fn an_allowlist_fixes_the_order_of_both_kinds() {
    let mut client = fake_client(vec![page(&[
            row("Microsoft.KeyVault/vaults", "kv-dev"),
            row("Microsoft.KeyVault/vaults", "kv-prod"),
            row("Microsoft.ContainerRegistry/registries", "acrdev"),
            row("Microsoft.ContainerRegistry/registries", "acrprod"),
        ], "")]);
    let azure = Azure {
        vaults: vec!["KV-PROD".into(), "kv-dev".into()],
        registries: vec!["acrprod".into()],
        ..Azure::default()
    };
    let inventory = inventory(&mut client, &azure).unwrap();
    let names: Vec<&str> = inventory.vaults.iter().map(|v| v.name.as_str()).collect();
    assert_eq!(names, ["kv-prod", "kv-dev"]);
    assert_eq!(inventory.registries.len(), 1);
    assert_eq!(inventory.registries[0].name, "acrprod");
}

#[test]
fn a_truncated_answer_is_said_out_loud_rather_than_shown_short() {
    let mut client = fake_client(vec![page(
        &[row("Microsoft.KeyVault/vaults", "kv-a")],
        r#","resultTruncated":"true""#,
    )]);
    let error = inventory(&mut client, &Azure::default()).unwrap_err().text;
    assert!(error.contains("truncated"), "{error}");
    assert!(error.contains("config.toml"), "{error}");
}

#[test]
fn a_forbidden_answer_means_the_login_can_reach_nothing() {
    let mut client = fake_client(vec![Answer::status(
        403,
        r#"{"error":{"code":"Forbidden","message":"no rights"}}"#,
    )]);
    let error = inventory(&mut client, &Azure::default()).unwrap_err().text;
    assert!(error.contains("az account list"), "{error}");
}

#[test]
fn the_query_sorts_on_a_unique_column_too_and_asks_for_object_rows() {
    let mut client = fake_client(vec![Answer::ok(r#"{"data": []}"#)]);
    inventory(&mut client, &Azure::default()).unwrap();
    let body = sent_body(&client.transport.sent[0]);
    assert!(
        matches!(body.get("query"), Some(Json::Text(query)) if query.contains("order by name asc, id asc")),
        "paging over a non-unique sort column duplicates and drops rows"
    );
    assert_eq!(
        *option(body, "resultFormat"),
        Json::Text("objectArray".to_owned())
    );
}

#[test]
fn a_login_with_no_subscriptions_is_told_what_to_run() {
    let mut client = fake_client(vec![Answer::status(
        400,
        r#"{"error":{"code":"BadRequest","message":"NoValidSubscriptionsInQueryRequest: no subscriptions"}}"#,
    )]);
    let error = inventory(&mut client, &Azure::default()).unwrap_err();
    assert!(
        error.text.contains("az account list"),
        "{error:?}"
    );
}

#[test]
fn a_row_of_an_unknown_type_is_ignored_rather_than_guessed_at() {
    let mut client = fake_client(vec![page(
        &[row("Microsoft.Compute/virtualMachines", "vm-1")],
        "",
    )]);
    let inventory = inventory(&mut client, &Azure::default()).unwrap();
    assert!(inventory.vaults.is_empty() && inventory.registries.is_empty());
}
