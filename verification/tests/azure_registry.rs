use az_tui::azure::acr::{
    attributes, digest_reference, human_size, manifest, pull_reference, repositories, short_digest,
    tags, PAGE,
};
use az_tui::azure::auth::FixedTokens;
use az_tui::azure::failure::is_no_login;
use az_tui::azure::fake::{client as fake_client, Answer, FakeTransport, Waits};
use az_tui::azure::transport::{Body, Client, Request};
use az_tui::azure::Registry;
use az_tui::timestamp::{Moment, Timestamp};

fn ts(raw: &str) -> Timestamp {
    Timestamp::parse(raw).unwrap()
}


fn registry() -> Registry {
    Registry {
        id: "/subscriptions/s/resourceGroups/rg/providers/Microsoft.ContainerRegistry/registries/acrprod".into(),
        name: "acrprod".into(),
        resource_group: "rg".into(),
        location: "eastus".into(),
        login_server: "acrprod.azurecr.io".into(),
    }
}

fn catalog(names: &[String]) -> Answer {
    let listed: Vec<String> = names.iter().map(|name| format!("\"{name}\"")).collect();
    Answer::ok(&format!(r#"{{"repositories":[{}]}}"#, listed.join(",")))
}

fn exchanged() -> Answer {
    Answer::ok(r#"{"refresh_token": "refresh-1"}"#)
}

fn issued(name: &str) -> Answer {
    Answer::ok(&format!(r#"{{"access_token":"{name}"}}"#))
}

fn form(request: &Request) -> Vec<(String, String)> {
    match &request.body {
        Body::Form(fields) => fields.clone(),
        other => panic!("expected a form body, got {other:?}"),
    }
}

fn field<'a>(fields: &'a [(String, String)], key: &str) -> Option<&'a str> {
    fields
        .iter()
        .find(|(held, _)| held == key)
        .map(|(_, value)| value.as_str())
}

#[test]
fn the_exchange_runs_once_per_registry_however_many_scopes_are_asked_for() {
    let mut client = fake_client(vec![
        exchanged(),
        issued("catalog-token"),
        Answer::ok(r#"{"repositories": ["api"]}"#),
        // The second read is a different scope, so a second access token
        // — but no second exchange.
        issued("repo-token"),
        Answer::ok(r#"{"imageName": "api", "tagCount": 3}"#),
    ]);
    repositories(&mut client, &registry()).unwrap();
    attributes(&mut client, &registry(), "api").unwrap();

    let urls = client.transport.urls();
    assert_eq!(
        urls.iter()
            .filter(|url| url.ends_with("/oauth2/exchange"))
            .count(),
        1,
        "one exchange, whatever the scopes: {urls:?}"
    );
    assert_eq!(
        urls.iter()
            .filter(|url| url.ends_with("/oauth2/token"))
            .count(),
        2,
        "one access token per scope"
    );
    assert_eq!(
        client.transport.bearers()[2].as_deref(),
        Some("catalog-token"),
        "the catalog is signed with the registry's own token, not ARM's"
    );
    assert_eq!(client.transport.bearers()[4].as_deref(), Some("repo-token"));
}

#[test]
fn no_token_is_exchanged_with_a_host_that_is_not_a_registry() {
    let mut elsewhere = registry();
    elsewhere.login_server = "evil.example".into();
    let mut client = fake_client(vec![exchanged(), issued("catalog-token")]);
    let error = repositories(&mut client, &elsewhere).unwrap_err().text;
    assert!(error.contains("not a registry login server"), "{error}");
    assert!(client.transport.sent.is_empty(), "nothing went out");
}

#[test]
fn the_two_posts_carry_the_fields_each_endpoint_wants() {
    let mut client = fake_client(vec![
        exchanged(),
        issued("catalog-token"),
        Answer::ok(r#"{"repositories": []}"#),
    ]);
    repositories(&mut client, &registry()).unwrap();
    let sent = &client.transport.sent;

    let exchange = form(&sent[0]);
    assert_eq!(field(&exchange, "grant_type"), Some("access_token"));
    assert_eq!(field(&exchange, "service"), Some("acrprod.azurecr.io"));
    assert!(
        field(&exchange, "access_token").is_some_and(|token| token.starts_with("registry-")),
        "the CLI token is minted for the containerregistry audience: {exchange:?}"
    );
    assert!(sent[0].bearer.is_none(), "a token call carries no bearer");

    let token = form(&sent[1]);
    assert_eq!(field(&token, "grant_type"), Some("refresh_token"));
    assert_eq!(field(&token, "scope"), Some("registry:catalog:*"));
    assert_eq!(field(&token, "refresh_token"), Some("refresh-1"));
}

#[test]
fn a_refused_data_plane_call_redoes_both_posts_once_and_then_gives_up() {
    let mut client = fake_client(vec![
        exchanged(),
        issued("stale"),
        Answer::status(
            401,
            r#"{"errors":[{"code":"UNAUTHORIZED","message":"expired"}]}"#,
        ),
        // The retry mints both again.
        exchanged(),
        issued("fresh"),
        Answer::ok(r#"{"repositories": ["api"]}"#),
    ]);
    let names = repositories(&mut client, &registry()).unwrap();
    assert_eq!(names, ["api"]);
    let urls = client.transport.urls();
    assert_eq!(
        urls.iter()
            .filter(|url| url.ends_with("/oauth2/exchange"))
            .count(),
        2,
        "the spent refresh token is dropped with the access token"
    );
    assert_eq!(client.transport.bearers()[5].as_deref(), Some("fresh"));
}

#[test]
fn a_spent_chain_is_rebuilt_from_a_fresh_cli_token() {
    // The data plane refuses: the access token, the refresh token *and*
    // the CLI token they were traded from are all re-minted, or a TUI
    // open past the CLI token's hour would trade a stale one for ever.
    let transport = FakeTransport::answering(vec![
        exchanged(),
        issued("stale"),
        Answer::status(401, r#"{"errors":[{"message":"expired"}]}"#),
        exchanged(),
        issued("fresh"),
        Answer::ok(r#"{"repositories": ["api"]}"#),
    ]);
    let mut client = Client::new(
        FixedTokens::new(),
        transport,
        Waits::standing_at(Moment { nanos: 0 }),
    );
    repositories(&mut client, &registry()).unwrap();
    let sent = &client.transport.sent;
    assert_ne!(
        field(&form(&sent[0]), "access_token"),
        field(&form(&sent[3]), "access_token"),
        "the second exchange carries a fresh CLI token"
    );
    assert_eq!(client.tokens.count(), 2);

    // The refresh token itself is refused — what happens after three
    // hours — and the next read still gets through.
    let mut client = fake_client(vec![
        exchanged(),
        issued("a"),
        Answer::ok(r#"{"repositories": ["api"]}"#),
        Answer::status(401, r#"{"errors":[{"message":"refresh token expired"}]}"#),
        exchanged(),
        issued("b"),
        Answer::ok(r#"{"imageName": "api"}"#),
    ]);
    repositories(&mut client, &registry()).unwrap();
    assert!(
        attributes(&mut client, &registry(), "api").is_ok(),
        "{:?}",
        client.transport.urls()
    );
}

#[test]
fn a_second_refusal_is_reported_rather_than_retried_for_ever() {
    let mut client = fake_client(vec![
        exchanged(),
        issued("stale"),
        Answer::status(401, r#"{"errors":[{"message":"expired"}]}"#),
        exchanged(),
        issued("also-stale"),
        Answer::status(401, r#"{"errors":[{"message":"expired"}]}"#),
    ]);
    let error = repositories(&mut client, &registry()).unwrap_err();
    assert!(
        error.text.contains("acrprod.azurecr.io: no permission"),
        "{error:?}"
    );
    assert_eq!(client.transport.sent.len(), 6, "two rounds, not a loop");
}

#[test]
fn a_refusal_on_the_exchange_itself_names_the_role_that_is_missing() {
    let refused = || {
        Answer::status(
            401,
            r#"{"errors":[{"code":"UNAUTHORIZED","message":"authentication required"}]}"#,
        )
    };
    let mut client = fake_client(vec![refused(), refused()]);
    let error = repositories(&mut client, &registry()).unwrap_err().text;
    assert!(
        error.contains("acrprod.azurecr.io: no permission"),
        "{error}"
    );
    assert!(error.contains("AcrPull"), "{error}");
    assert_eq!(
        client.transport.sent.len(),
        2,
        "one fresh CLI token, then no more"
    );
}

#[test]
fn a_stale_cli_token_on_the_exchange_is_minted_again_once() {
    // The registry was unreachable at every refresh for an hour, so no
    // data-plane 401 ever dropped the CLI token: the exchange is the
    // first call to see it has expired.
    let mut client = fake_client(vec![
        Answer::status(401, r#"{"errors":[{"message":"expired"}]}"#),
        exchanged(),
        issued("fresh"),
        Answer::ok(r#"{"repositories": ["api"]}"#),
    ]);
    let names = repositories(&mut client, &registry()).unwrap();
    assert_eq!(names, ["api"]);
    let sent = &client.transport.sent;
    assert_eq!(sent.len(), 4);
    let tokens: Vec<_> = sent[..2]
        .iter()
        .map(|request| field(&form(request), "access_token").unwrap().to_owned())
        .collect();
    assert_ne!(tokens[0], tokens[1], "the retry carried a fresh CLI token");
}

#[test]
fn no_login_at_all_is_not_reported_as_a_missing_role() {
    let mut tokens = FixedTokens::new();
    tokens
        .answers
        .push(Err("could not get a token for registry".to_owned()));
    let mut client = Client::new(
        tokens,
        FakeTransport::answering(vec![]),
        Waits::standing_at(Moment { nanos: 0 }),
    );

    let error = repositories(&mut client, &registry()).unwrap_err();
    assert!(
        is_no_login(&error),
        "a missing login must reach the worker as one: {error:?}"
    );
    assert!(
        !error.text.contains("AcrPull"),
        "telling someone to ask for a role they cannot use is worse than useless: {error:?}"
    );
}

#[test]
fn the_catalog_pages_with_last_and_a_short_page_ends_it() {
    let full: Vec<String> = (0..PAGE).map(|n| format!("repo-{n:03}")).collect();
    let mut client = fake_client(vec![
        exchanged(),
        issued("catalog-token"),
        catalog(&full),
        Answer::ok(r#"{"repositories": ["repo-last"]}"#),
    ]);
    let names = repositories(&mut client, &registry()).unwrap();
    assert_eq!(names.len(), PAGE + 1);
    assert_eq!(names.last().unwrap(), "repo-last");
    let urls = client.transport.urls();
    assert_eq!(urls[2], "https://acrprod.azurecr.io/acr/v1/_catalog?n=100");
    assert_eq!(
        urls[3],
        "https://acrprod.azurecr.io/acr/v1/_catalog?n=100&last=repo-099"
    );
}

#[test]
fn a_page_that_does_not_move_the_cursor_ends_the_listing() {
    let full: Vec<String> = (0..PAGE).map(|_| "same".to_owned()).collect();
    let mut client = fake_client(vec![
        exchanged(),
        issued("t"),
        catalog(&full),
        catalog(&full),
    ]);
    repositories(&mut client, &registry()).unwrap();
    assert_eq!(client.transport.sent.len(), 4, "it stops rather than looping");
}

#[test]
fn tags_keep_the_order_the_registry_gave_them() {
    let mut client = fake_client(vec![
        exchanged(),
        issued("repo-token"),
        Answer::ok(r#"{"registry": "acrprod.azurecr.io", "imageName": "payments-api", "tags": [{"name": "1.42.0", "digest": "sha256:ab12ef0199", "createdTime": "2026-09-11T18:00:00Z", "lastUpdateTime": "2026-09-11T18:00:00Z", "signed": false}, {"name": "1.41.3", "digest": "sha256:9f01aa4288", "createdTime": "2026-09-08T18:00:00Z", "lastUpdateTime": "2026-09-08T18:00:00Z"}]}"#),
    ]);
    let read = tags(&mut client, &registry(), "payments-api").unwrap();
    assert_eq!(
        read.iter().map(|tag| tag.name.as_str()).collect::<Vec<_>>(),
        ["1.42.0", "1.41.3"],
        "timedesc is the registry's job, not ours"
    );
    assert_eq!(read[0].created, Some(ts("2026-09-11T18:00:00Z")));
    assert!(
        client.transport.urls()[2].ends_with("/acr/v1/payments-api/_tags?n=100&orderby=timedesc"),
        "{:?}",
        client.transport.urls()
    );
}

#[test]
fn a_manifest_is_read_from_under_its_own_key_and_an_index_names_no_architecture() {
    let mut client = fake_client(vec![
        exchanged(),
        issued("repo-token"),
        Answer::ok(r#"{"registry": "acrprod.azurecr.io", "imageName": "payments-api", "manifest": {"digest": "sha256:ab12ef0199", "imageSize": 84200000, "createdTime": "2026-09-11T18:00:00Z", "lastUpdateTime": "2026-09-11T18:00:00Z", "architecture": "amd64", "os": "linux", "configMediaType": "application/vnd.docker.container.image.v1+json", "tags": ["1.42.0", "1.42"]}}"#),
    ]);
    let read = manifest(&mut client, &registry(), "payments-api", "sha256:ab12ef0199").unwrap();
    assert_eq!(read.size, Some(84_200_000));
    assert_eq!(read.architecture.as_deref(), Some("amd64"));
    assert_eq!(read.os.as_deref(), Some("linux"));
    assert_eq!(read.tags, ["1.42.0", "1.42"]);
    assert!(client.transport.urls()[2].ends_with("/_manifests/sha256:ab12ef0199"));

    let mut client = fake_client(vec![
        exchanged(),
        issued("t"),
        // A manifest list carries neither; the fields are optional.
        Answer::ok(r#"{"manifest": {"digest": "sha256:ff", "createdTime": "2026-09-11T18:00:00Z"}}"#,
        ),
    ]);
    let index = manifest(&mut client, &registry(), "payments-api", "sha256:ff").unwrap();
    assert_eq!(index.architecture, None);
    assert_eq!(index.os, None);
    assert_eq!(index.size, None);
    assert!(index.tags.is_empty());
}

#[test]
fn attributes_fill_in_what_the_catalog_left_out() {
    let mut client = fake_client(vec![
        exchanged(),
        issued("repo-token"),
        Answer::ok(r#"{"registry": "acrprod.azurecr.io", "imageName": "payments-api", "createdTime": "2025-09-11T18:00:00Z", "lastUpdateTime": "2026-09-11T18:00:00Z", "manifestCount": 51, "tagCount": "48", "changeableAttributes": {"deleteEnabled": true, "listEnabled": true}}"#),
    ]);
    let repository = attributes(&mut client, &registry(), "payments-api").unwrap();
    assert_eq!(repository.registry, "acrprod");
    assert_eq!(repository.name, "payments-api");
    assert_eq!(repository.manifest_count, Some(51));
    assert_eq!(
        repository.tag_count,
        Some(48),
        "a count written as digits in a string is the same count"
    );
    assert_eq!(repository.updated, Some(ts("2026-09-11T18:00:00Z")));
}

#[test]
fn a_repository_with_a_slash_keeps_it_in_the_path_and_the_scope() {
    let mut client = fake_client(vec![
        exchanged(),
        issued("t"),
        Answer::ok(r#"{"tags": []}"#),
    ]);
    tags(&mut client, &registry(), "team/api").unwrap();
    assert_eq!(
        field(&form(&client.transport.sent[1]), "scope"),
        Some("repository:team/api:metadata_read"),
        "the scope names the repository as it is written"
    );
    assert!(
        client.transport.urls()[2].contains("/acr/v1/team/api/_tags?"),
        "{:?}",
        client.transport.urls()
    );
}

#[test]
fn the_references_the_copy_keys_build() {
    assert_eq!(
        pull_reference("acrprod.azurecr.io", "payments-api", "1.42.0"),
        "acrprod.azurecr.io/payments-api:1.42.0"
    );
    assert_eq!(
        digest_reference("acrprod.azurecr.io", "payments-api", "sha256:ab12ef01"),
        "acrprod.azurecr.io/payments-api@sha256:ab12ef01"
    );
    assert_eq!(short_digest("sha256:ab12ef0199aabb"), "sha256:ab12ef01");
    assert_eq!(
        short_digest("sha256:ab12"),
        "sha256:ab12",
        "nothing to trim"
    );
    assert_eq!(short_digest("nonsense"), "nonsense");
    assert_eq!(
        short_digest("sha256:aéééééé"),
        "sha256:aéééééé",
        "a registry's string is cut by character, never mid-byte"
    );
    assert_eq!(short_digest("sha256:éééééééééé"), "sha256:éééééééé");
}

#[test]
fn a_size_reads_the_way_docker_images_prints_it() {
    assert_eq!(human_size(0), "0 B");
    assert_eq!(human_size(999), "999 B");
    assert_eq!(human_size(1000), "1.0 kB");
    assert_eq!(human_size(84_200_000), "84.2 MB");
    assert_eq!(human_size(3_000_000_000), "3.0 GB");
}

/// A size divided down in a binary64 and printed to one decimal.
fn in_floats(bytes: u64) -> String {
    let units = ["B", "kB", "MB", "GB", "TB"];
    let mut size = bytes as f64;
    let mut unit = 0;
    while size >= 1000.0 && unit < units.len() - 1 {
        size /= 1000.0;
        unit += 1;
    }
    if unit == 0 {
        format!("{bytes} B")
    } else {
        format!("{size:.1} {}", units[unit])
    }
}

#[test]
fn a_size_is_what_dividing_it_in_a_binary64_leaves() {
    assert_eq!(human_size(1_250), "1.2 kB", "a tie goes to the even tenth");
    assert_eq!(human_size(1_350), in_floats(1_350));
    assert_eq!(human_size(999_999), "1000.0 kB");
    assert_eq!(human_size(u64::MAX), "18446744.1 TB");
    for bytes in (0..2_000_000).step_by(50) {
        assert_eq!(human_size(bytes), in_floats(bytes), "{bytes}");
    }
    for unit in [1_000, 1_000_000, 1_000_000_000, 1_000_000_000_000] {
        for tenths in 0..2_000_u64 {
            for off in [unit / 20 - 1, unit / 20, unit / 20 + 1] {
                let bytes = tenths * (unit / 10) + off;
                assert_eq!(human_size(bytes), in_floats(bytes), "{bytes}");
            }
        }
    }
    let mut bytes: u64 = 1;
    for shift in 0..20_000_u32 {
        bytes = bytes
            .wrapping_mul(6_364_136_223_846_793_005)
            .wrapping_add(1_442_695_040_888_963_407);
        let sized = bytes >> (shift % 64);
        assert_eq!(human_size(sized), in_floats(sized), "{sized}");
    }
}
