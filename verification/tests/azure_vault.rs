use az_tui::azure::fake::{client as fake_client, Answer};
use az_tui::azure::vault::{secrets, value, versions};
use az_tui::azure::Vault;
use az_tui::timestamp::Timestamp;

fn ts(raw: &str) -> Timestamp {
    Timestamp::parse(raw).unwrap()
}


fn vault() -> Vault {
    Vault {
        id: "/subscriptions/s/resourceGroups/rg/providers/Microsoft.KeyVault/vaults/kv-prod"
            .into(),
        name: "kv-prod".into(),
        resource_group: "rg".into(),
        location: "eastus".into(),
        uri: "https://kv-prod.vault.azure.net/".into(),
    }
}

#[test]
fn a_listing_follows_next_link_verbatim() {
    let mut client = fake_client(vec![
        Answer::ok(r#"{"value": [{"id": "https://kv-prod.vault.azure.net/secrets/a", "attributes": {"enabled": true}}], "nextLink": "https://kv-prod.vault.azure.net/secrets?api-version=7.4&$skiptoken=XYZ"}"#),
        Answer::ok(r#"{"value": [{"id": "https://kv-prod.vault.azure.net/secrets/b", "attributes": {"enabled": true}}], "nextLink": null}"#),
    ]);
    let rows = secrets(&mut client, &vault()).unwrap();
    assert_eq!(
        rows.iter().map(|row| row.name.as_str()).collect::<Vec<_>>(),
        ["a", "b"]
    );
    let urls = client.transport.urls();
    assert_eq!(
        urls[0], "https://kv-prod.vault.azure.net/secrets?api-version=7.4&maxresults=25",
        "the cap is the service's 25, not ours"
    );
    assert_eq!(
        urls[1], "https://kv-prod.vault.azure.net/secrets?api-version=7.4&$skiptoken=XYZ",
        "the next page's address is followed as it was written"
    );
    assert!(
        client.transport.bearers()[0]
            .as_deref()
            .unwrap()
            .starts_with("vault-"),
        "signed with the vault audience, not ARM's"
    );
}

#[test]
fn every_attribute_is_read_and_a_bare_entry_still_makes_a_row() {
    let mut client = fake_client(vec![Answer::ok(r#"{"value": [{"id": "https://kv-prod.vault.azure.net/secrets/db-password", "contentType": "text/plain", "tags": {"owner": "platform", "env": "prod"}, "managed": null, "attributes": {"enabled": true, "created": 1709251200, "updated": 1725753600, "exp": 1767225600, "nbf": null, "recoveryLevel": "Recoverable+Purgeable"}}, {"id": "https://kv-prod.vault.azure.net/secrets/bare", "attributes": {"enabled": false}}]}"#)]);
    let rows = secrets(&mut client, &vault()).unwrap();

    let full = &rows[0];
    assert_eq!(full.vault, "kv-prod");
    assert_eq!(full.name, "db-password");
    assert_eq!(full.content_type.as_deref(), Some("text/plain"));
    assert_eq!(
        full.tags,
        [
            ("env".to_owned(), "prod".to_owned()),
            ("owner".to_owned(), "platform".to_owned())
        ],
        "tags read in key order however the vault wrote them"
    );
    assert!(!full.managed, "a null `managed` is not a managed secret");
    assert_eq!(full.created, Some(ts("2024-03-01T00:00:00Z")));
    assert_eq!(full.expires, Some(ts("2026-01-01T00:00:00Z")));
    assert_eq!(full.not_before, None);

    let bare = &rows[1];
    assert!(!bare.enabled);
    assert_eq!(bare.created, None);
    assert!(bare.tags.is_empty());
    assert_eq!(bare.content_type, None);
}

#[test]
fn a_missing_enabled_attribute_reads_as_usable() {
    let mut client = fake_client(vec![Answer::ok(r#"{"value": [{"id": "https://kv-prod.vault.azure.net/secrets/x", "attributes": {}}]}"#)]);
    assert!(secrets(&mut client, &vault()).unwrap()[0].enabled);
}

#[test]
fn versions_come_back_newest_first() {
    let mut client = fake_client(vec![Answer::ok(r#"{"value": [{"id": "https://kv-prod.vault.azure.net/secrets/db/1c2b90aa", "attributes": {"enabled": true, "created": 1709251200}}, {"id": "https://kv-prod.vault.azure.net/secrets/db/8f3a2c1d", "attributes": {"enabled": true, "created": 1725753600}}]}"#)]);
    let read = versions(&mut client, &vault(), "db").unwrap();
    assert_eq!(
        read
            .iter()
            .map(|v| v.version.as_str())
            .collect::<Vec<_>>(),
        ["8f3a2c1d", "1c2b90aa"]
    );
    assert!(client.transport.urls()[0].contains("/secrets/db/versions?api-version=7.4"));
}

#[test]
fn a_value_comes_back_with_the_version_it_came_from_and_never_prints_itself() {
    let mut client = fake_client(vec![Answer::ok(r#"{"value": "s3cr3t", "id": "https://kv-prod.vault.azure.net/secrets/db/8f3a2c1d", "contentType": "text/plain", "attributes": {"enabled": true}}"#)]);
    let (secret, version) = value(&mut client, &vault(), "db", None).unwrap();
    assert_eq!(secret.expose(), "s3cr3t");
    assert_eq!(version, "8f3a2c1d");
    assert!(!secret.printed().contains("s3cr3t"));
    assert_eq!(
        client.transport.urls()[0],
        "https://kv-prod.vault.azure.net/secrets/db?api-version=7.4"
    );
    assert!(
        client.transport.bearers()[0]
            .as_deref()
            .unwrap()
            .starts_with("vault-")
    );
}

#[test]
fn one_version_is_asked_for_by_its_own_path() {
    let mut client = fake_client(vec![Answer::ok(r#"{"value": "old", "id": "https://kv-prod.vault.azure.net/secrets/db/1c2b90aa"}"#)]);
    let (_, version) = value(&mut client, &vault(), "db", Some("1c2b90aa")).unwrap();
    assert_eq!(version, "1c2b90aa");
    assert_eq!(
        client.transport.urls()[0],
        "https://kv-prod.vault.azure.net/secrets/db/1c2b90aa?api-version=7.4"
    );
}

#[test]
fn a_firewall_and_a_permission_are_told_apart() {
    let mut client = fake_client(vec![Answer::status(
        403,
        r#"{"error":{"code":"Forbidden","message":"Client address is not authorized","innererror":{"code":"ForbiddenByFirewall"}}}"#,
    )]);
    let error = secrets(&mut client, &vault()).unwrap_err().text;
    assert!(
        error.contains("kv-prod: blocked by the vault firewall"),
        "{error}"
    );

    let mut client = fake_client(vec![Answer::status(
        403,
        r#"{"error":{"code":"Forbidden","message":"Caller is not authorized to perform action on resource"}}"#,
    )]);
    let error = secrets(&mut client, &vault()).unwrap_err().text;
    assert!(
        error.contains("kv-prod: no permission to read secrets"),
        "{error}"
    );
    assert!(error.contains("Key Vault Secrets User"), "{error}");
}

#[test]
fn a_vault_uri_written_without_a_slash_still_builds_one_url() {
    let mut vault = vault();
    vault.uri = "https://kv-prod.vault.azure.net".into();
    let mut client = fake_client(vec![Answer::ok(r#"{"value": []}"#)]);
    secrets(&mut client, &vault).unwrap();
    assert!(
        client.transport.urls()[0].starts_with("https://kv-prod.vault.azure.net/secrets?"),
        "{:?}",
        client.transport.urls()
    );
}
