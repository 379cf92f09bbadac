use az_tui::azure::auth::{
    account, az_answer, az_version, first_line, lines, subscriptions, Audience, FixedTokens, TokenSource,
};
use az_tui::azure::encode::{form_encode, host_under, path, segment};
use az_tui::azure::failure::{
    failure_codes, failure_message, is_no_login, is_signed_out, said, Failure, SIGNED_OUT,
};
use az_tui::azure::fake::{client, Answer, FakeTransport, Waits};
use az_tui::azure::json::Json;
use az_tui::azure::transport::{
    read_parsed, throttle_wait, Body, Client, Method, Request, Response,
};
use az_tui::azure::waits::{
    hms_seconds, retry_after, wait_for, DEFAULT_RETRY_AFTER, MAX_RETRY_AFTER, MIN_RETRY_AFTER,
};
use az_tui::timestamp::{Moment, Timestamp, SECOND};

// ── Tokens ─────────────────────────────────────────────────────────────

#[test]
fn the_arm_audience_keeps_its_trailing_slash_and_the_vault_one_has_none() {
    assert_eq!(Audience::Arm.resource(), "https://management.azure.com/");
    assert_eq!(Audience::Vault.resource(), "https://vault.azure.net");
    assert_eq!(
        Audience::ContainerRegistry.resource(),
        "https://containerregistry.azure.net",
        "not the ARM audience: a hardened registry refuses that one"
    );
    assert_ne!(Audience::Arm.cache_key(), Audience::Vault.cache_key());
}

#[test]
fn a_registry_token_is_cached_per_registry_and_per_scope() {
    let catalog = Audience::Acr {
        login_server: "acr.azurecr.io".into(),
        scope: "registry:catalog:*".into(),
    };
    let repository = Audience::Acr {
        login_server: "acr.azurecr.io".into(),
        scope: "repository:api:metadata_read".into(),
    };
    let elsewhere = Audience::Acr {
        login_server: "other.azurecr.io".into(),
        scope: "registry:catalog:*".into(),
    };
    assert_ne!(catalog.cache_key(), repository.cache_key());
    assert_ne!(catalog.cache_key(), elsewhere.cache_key());
    assert_ne!(catalog.cache_key(), Audience::Arm.cache_key());
}

#[test]
fn tsv_output_is_read_a_line_at_a_time_with_blanks_dropped() {
    assert_eq!(lines("a\n\n b \n"), ["a", "b"]);
    assert_eq!(lines(""), Vec::<String>::new());
    assert_eq!(first_line("\nERROR: nope\nmore\n"), "ERROR: nope");
}

#[test]
fn a_fixed_token_source_counts_and_re_mints() {
    let mut tokens = FixedTokens::new();
    assert_eq!(tokens.token(&Audience::Arm).unwrap(), "arm-token-1");
    assert_eq!(tokens.token(&Audience::Arm).unwrap(), "arm-token-2");
    assert_eq!(tokens.count(), 2);
}

#[test]
fn what_az_printed_is_the_answer_or_says_to_sign_in() {
    assert_eq!(
        az_answer("account show", true, " token \n", ""),
        Ok("token".to_owned())
    );
    assert_eq!(
        az_answer("account show", true, " \n", ""),
        Err("`az account show` answered with nothing — run `az login`".to_owned())
    );
    assert_eq!(
        az_answer("account show", false, "", "\nERROR: expired\nmore"),
        Err("`az account show` failed: ERROR: expired — run `az login`".to_owned())
    );
}

#[test]
fn subscriptions_are_listed_a_line_each_and_a_version_is_one_line() {
    assert_eq!(subscriptions("sub-1\n\n sub-2\n"), ["sub-1", "sub-2"]);
    assert_eq!(az_version("2.63.0\n"), "2.63.0");
}

#[test]
fn an_account_is_a_user_and_a_tenant() {
    assert_eq!(
        account("me@example.com\ttenant-1\n"),
        Ok(("me@example.com".to_owned(), "tenant-1".to_owned()))
    );
    assert_eq!(
        account("me@example.com"),
        Ok(("me@example.com".to_owned(), String::new()))
    );
    assert_eq!(
        account(" \t "),
        Err("`az account show` answered with nothing — run `az login`".to_owned())
    );
}

// ── The client ─────────────────────────────────────────────────────────

fn get(url: &str) -> Request {
    Request::get(url)
}

fn spent_token_is_minted_once_more() {
    let mut client = client(vec![
        Answer::status(401, r#"{"error":{"code":"ExpiredAuthenticationToken"}}"#),
        Answer::ok(r#"{"ok":true}"#),
    ]);
    let answer = client
        .call(&Audience::Arm, get("https://example/one"))
        .unwrap();
    assert_eq!(answer.get("ok"), Some(&Json::Bool(true)));
    let bearers = client.transport.bearers();
    assert_eq!(bearers.len(), 2);
    assert_ne!(bearers[0], bearers[1], "the retry carries a fresh token");
}

#[test]
fn tests_a_spent_token_is_minted_once_more_and_the_call_retried() {
    spent_token_is_minted_once_more();
}

#[test]
fn transport_a_spent_token_is_minted_once_more_and_the_call_retried() {
    spent_token_is_minted_once_more();
}

fn second_refusal() {
    let mut client = client(vec![
        Answer::status(401, r#"{"error":{"message":"expired"}}"#),
        Answer::status(401, r#"{"error":{"message":"expired"}}"#),
    ]);
    let error = client
        .call(&Audience::Arm, get("https://example/one"))
        .unwrap_err();
    assert!(is_signed_out(&error), "{error:?}");
    assert!(error.text.contains("expired"), "{error:?}");
}

#[test]
fn tests_a_second_refusal_is_a_signed_out_login() {
    second_refusal();
}

#[test]
fn transport_a_second_refusal_is_a_signed_out_login() {
    second_refusal();
}

fn throttle_waits() {
    let mut client = client(vec![
        Answer::status(429, r#"{"error":{"message":"slow down"}}"#).with_header("Retry-After", "2"),
        Answer::ok(r#"{"ok":true}"#),
    ]);
    client
        .call(&Audience::Arm, get("https://example/one"))
        .unwrap();
    assert_eq!(client.clock.taken, [2 * SECOND]);
    assert_eq!(client.transport.sent.len(), 2);
    assert_eq!(client.last_throttle(), Some(2 * SECOND));
    assert_eq!(client.last_throttle(), None, "reading it clears it");
}

#[test]
fn tests_a_throttle_waits_the_header_out_and_asks_once_more() {
    throttle_waits();
}

#[test]
fn transport_a_throttle_waits_the_header_out_and_asks_once_more() {
    throttle_waits();
}

fn throttle_does_not_lift() {
    let mut client = client(vec![
        Answer::status(429, "{}").with_header("Retry-After", "1"),
        Answer::status(429, "{}").with_header("Retry-After", "1"),
    ]);
    let error = client
        .call(&Audience::Arm, get("https://example/one"))
        .unwrap_err();
    assert!(error.text.contains("still throttling"), "{error:?}");
    assert_eq!(client.transport.sent.len(), 2, "one wait, not a loop");
}

#[test]
fn tests_a_throttle_that_does_not_lift_is_an_error_rather_than_a_loop() {
    throttle_does_not_lift();
}

#[test]
fn transport_a_throttle_that_does_not_lift_is_an_error_rather_than_a_loop() {
    throttle_does_not_lift();
}

fn minted_once() {
    let mut client = client(vec![Answer::ok("{}"), Answer::ok("{}")]);
    client
        .call(&Audience::Arm, get("https://example/one"))
        .unwrap();
    client
        .call(&Audience::Arm, get("https://example/two"))
        .unwrap();
    // Two calls, one mint: the second reads the cache.
    assert_eq!(client.cached.len(), 1);
    assert_eq!(client.tokens.count(), 1);
}

#[test]
fn tests_a_token_is_minted_once_and_then_reused() {
    minted_once();
}

#[test]
fn transport_a_token_is_minted_once_and_then_reused() {
    minted_once();
}

fn retry_after_reads() {
    let now = Moment::of(Timestamp::parse("2026-09-11T20:00:00Z").unwrap());
    assert_eq!(retry_after(Some("2"), now), 2 * SECOND);
    assert_eq!(retry_after(None, now), DEFAULT_RETRY_AFTER);
    assert_eq!(retry_after(Some("  "), now), DEFAULT_RETRY_AFTER);
    assert_eq!(retry_after(Some("nan"), now), DEFAULT_RETRY_AFTER);
    assert_eq!(retry_after(Some("banana"), now), DEFAULT_RETRY_AFTER);
    assert_eq!(
        retry_after(Some("0"), now),
        MIN_RETRY_AFTER,
        "never nothing"
    );
    assert_eq!(
        retry_after(Some("7200"), now),
        MAX_RETRY_AFTER,
        "never days"
    );
    assert_eq!(
        retry_after(Some("Fri, 11 Sep 2026 20:00:45 GMT"), now),
        45 * SECOND,
        "an HTTP date counts forward from now"
    );
    assert_eq!(
        retry_after(Some("Fri, 11 Sep 2026 19:00:00 GMT"), now),
        MIN_RETRY_AFTER,
        "a date already past is still worth a breath"
    );
}

#[test]
fn tests_retry_after_reads_seconds_a_date_and_nothing_at_all() {
    retry_after_reads();
}

#[test]
fn transport_retry_after_reads_seconds_a_date_and_nothing_at_all() {
    retry_after_reads();
}

#[test]
fn a_wait_is_signed_and_as_long_as_it_likes() {
    let now = Moment { nanos: 0 };
    assert_eq!(wait_for("-5", None, now), MIN_RETRY_AFTER);
    assert_eq!(wait_for("+5", None, now), 5 * SECOND);
    assert_eq!(wait_for("99999999999999999999999", None, now), MAX_RETRY_AFTER);
    assert_eq!(wait_for("soon", Some(90), now), 90 * SECOND);
    assert_eq!(wait_for("soon", Some(90_000), now), MAX_RETRY_AFTER);
    assert_eq!(wait_for("soon", None, now), DEFAULT_RETRY_AFTER);
}

#[test]
fn a_date_is_counted_to_from_within_the_second_it_is() {
    let start = Moment::of(Timestamp::parse("2026-09-11T20:00:00Z").unwrap());
    let later = |nanos: i128| Moment {
        nanos: start.nanos + nanos,
    };
    let date = Some("Fri, 11 Sep 2026 20:00:45 GMT");
    assert_eq!(retry_after(date, later(0)), 45 * SECOND);
    assert_eq!(retry_after(date, later(250_000_000)), 44_750_000_000);
    assert_eq!(retry_after(date, later(1)), 45 * SECOND - 1);
    assert_eq!(retry_after(date, later(44_000_000_001)), MIN_RETRY_AFTER);
    assert_eq!(retry_after(date, later(43_999_999_999)), SECOND + 1);
    let hour = Some("Fri, 11 Sep 2026 21:00:00 GMT");
    assert_eq!(retry_after(hour, later(0)), MAX_RETRY_AFTER);
    assert_eq!(retry_after(hour, later(-1)), MAX_RETRY_AFTER);
    assert_eq!(retry_after(hour, later(1)), MAX_RETRY_AFTER - 1);
    assert_eq!(retry_after(date, Moment { nanos: i128::MAX }), MIN_RETRY_AFTER);
    assert_eq!(retry_after(date, Moment { nanos: i128::MIN }), MAX_RETRY_AFTER);
}

#[test]
fn resource_graphs_quota_clock_is_read_when_there_is_no_retry_after() {
    let now = Moment::of(Timestamp::parse("2026-09-11T20:00:00Z").unwrap());
    let response = |headers: Vec<(&str, &str)>| Response {
        status: 429,
        headers: headers
            .into_iter()
            .map(|(a, b)| (a.to_owned(), b.to_owned()))
            .collect(),
        body: String::new(),
    };
    assert_eq!(
        throttle_wait(&response(vec![("Retry-After", "12")]), now),
        12 * SECOND
    );
    assert_eq!(
        throttle_wait(
            &response(vec![("x-ms-user-quota-resets-after", "00:00:04")]),
            now
        ),
        4 * SECOND,
        "Resource Graph writes a clock, not a count of seconds"
    );
    assert_eq!(
        throttle_wait(
            &response(vec![("x-ms-user-quota-resets-after", "01:02:03")]),
            now
        ),
        MAX_RETRY_AFTER,
        "a clock past the cap is still capped"
    );
    assert_eq!(hms_seconds("01:02:03"), Some(3723));
    assert_eq!(hms_seconds("02:30"), Some(150), "a two-part clock is mm:ss");
    assert_eq!(
        throttle_wait(&response(vec![]), now),
        30 * SECOND,
        "Key Vault says nothing, so the default applies"
    );
    assert_eq!(hms_seconds("nope"), None);
}

fn refusal_is_read() {
    assert_eq!(
        failure_message(r#"{"error":{"code":"Forbidden","message":"no access policy"}}"#),
        "no access policy",
        "ARM and Key Vault"
    );
    assert_eq!(
        failure_message(
            r#"{"errors":[{"code":"UNAUTHORIZED","message":"authentication required"}]}"#
        ),
        "authentication required",
        "a container registry"
    );
    assert_eq!(
        failure_message(
            r#"{"error":{"message":"see the correlation id","details":[{"message":"the subscription is disabled"}]}}"#
        ),
        "see the correlation id \u{2014} the subscription is disabled"
    );
    assert_eq!(failure_message("<html>nope</html>"), "<html>nope</html>");
    assert_eq!(failure_message(&"x".repeat(400)).len(), 200);
}

#[test]
fn tests_a_refusal_is_read_in_whichever_shape_the_plane_wrote_it() {
    refusal_is_read();
}

#[test]
fn transport_a_refusal_is_read_in_whichever_shape_the_plane_wrote_it() {
    refusal_is_read();
}

fn codes_are_read() {
    let body = r#"{"error":{"code":"Forbidden","message":"…","innererror":{"code":"ForbiddenByFirewall"}}}"#;
    assert_eq!(failure_codes(body), ["Forbidden", "ForbiddenByFirewall"]);
    assert_eq!(
        failure_codes(r#"{"errors":[{"code":"DENIED"}]}"#),
        ["DENIED"]
    );
    assert!(failure_codes("nope").is_empty());
}

#[test]
fn tests_the_codes_a_refusal_carries_include_the_inner_one() {
    codes_are_read();
}

#[test]
fn transport_the_codes_a_refusal_carries_include_the_inner_one() {
    codes_are_read();
}

fn form_is_encoded() {
    let encoded = form_encode(&vec![
        ("grant_type".to_owned(), "access_token".to_owned()),
        ("service".to_owned(), "acr.azurecr.io".to_owned()),
        (
            "scope".to_owned(),
            "repository:team/api:metadata_read".to_owned(),
        ),
    ]);
    assert_eq!(
        encoded,
        "grant_type=access_token&service=acr.azurecr.io&scope=repository%3Ateam%2Fapi%3Ametadata_read"
    );
}

#[test]
fn tests_a_form_body_is_encoded_the_way_a_token_endpoint_wants_it() {
    form_is_encoded();
}

#[test]
fn transport_a_form_body_is_encoded_the_way_a_token_endpoint_wants_it() {
    form_is_encoded();
}

fn not_json_names_the_url() {
    let mut client = client(vec![Answer::ok("<html>hello</html>")]);
    let error = client
        .call(&Audience::Arm, get("https://example/one"))
        .unwrap_err();
    assert!(error.text.contains("https://example/one"), "{error:?}");
    assert!(error.text.contains("other than JSON"), "{error:?}");
}

#[test]
fn tests_a_2xx_that_is_not_json_names_the_url() {
    not_json_names_the_url();
}

#[test]
fn transport_a_2xx_that_is_not_json_names_the_url() {
    not_json_names_the_url();
}

fn plain_refusal() {
    let mut client = client(vec![Answer::status(
        403,
        r#"{"error":{"message":"caller is not authorized"}}"#,
    )]);
    let error = client
        .call(&Audience::Vault, get("https://kv/secrets"))
        .unwrap_err();
    let message = &error.text;
    assert!(message.contains("403"), "{message}");
    assert!(message.contains("caller is not authorized"), "{message}");
    assert!(!is_signed_out(&error), "a 403 is a permission, not a login");
}

#[test]
fn tests_a_plain_refusal_carries_the_status_and_the_message() {
    plain_refusal();
}

#[test]
fn transport_a_plain_refusal_carries_the_status_and_the_message() {
    plain_refusal();
}

#[test]
fn an_empty_answer_is_not_an_answer() {
    let mut client = client(vec![Answer::ok("  \n")]);
    let error = client
        .call(&Audience::Vault, get("https://kv/secrets"))
        .unwrap_err();
    assert_eq!(error.text, "https://kv/secrets answered with an empty body");
}

#[test]
fn a_request_that_cannot_be_sent_says_why() {
    let mut client = client(vec![]);
    let error = client
        .call(&Audience::Vault, get("https://kv/secrets"))
        .unwrap_err();
    assert_eq!(
        error.text,
        "the fake transport ran out of answers at https://kv/secrets"
    );
    assert!(!is_signed_out(&error));
}

#[test]
fn a_missing_login_is_asked_for_once() {
    let mut tokens = FixedTokens::new();
    tokens.answers.push(Err("no login".to_owned()));
    let mut client = Client::new(
        tokens,
        FakeTransport::answering(vec![Answer::ok("{}")]),
        Waits::standing_at(Moment { nanos: 0 }),
    );
    let error = client
        .call(&Audience::Arm, get("https://example/one"))
        .unwrap_err();
    assert!(is_no_login(&error));
    assert_eq!(client.tokens.count(), 1);
    assert!(client.transport.sent.is_empty());
    assert_eq!(said(&error), "not signed in — run `az login` (no login)");
}

#[test]
fn what_a_person_is_shown_starts_with_the_words_that_fix_it() {
    assert_eq!(said(&Failure::signed_out(String::new())), SIGNED_OUT);
    assert_eq!(
        said(&Failure::no_login("\nfirst\nsecond".to_owned())),
        "not signed in — run `az login` (first)"
    );
    assert_eq!(said(&Failure::other("plain".to_owned())), "plain");
    assert_eq!(
        Failure::other("inner".to_owned()).context("outer").text,
        "outer: inner"
    );
}

#[test]
fn an_answer_is_read_by_its_status_first() {
    let response = |status: u16, body: &str| Response {
        status,
        headers: Vec::new(),
        body: body.to_owned(),
    };
    let parsed = || Ok(Json::Bool(true));
    assert_eq!(
        read_parsed("u", &response(200, "true"), parsed()).unwrap(),
        Json::Bool(true)
    );
    assert_eq!(
        read_parsed("u", &response(401, "true"), parsed())
            .unwrap_err()
            .text,
        "Azure refused the token for u: true"
    );
    assert_eq!(
        read_parsed("u", &response(503, "true"), parsed())
            .unwrap_err()
            .text,
        "u answered 503: Azure is still throttling this: true"
    );
    assert_eq!(
        read_parsed("u", &response(300, "true"), parsed())
            .unwrap_err()
            .text,
        "u answered 300: true"
    );
    assert_eq!(
        read_parsed("u", &response(200, "x"), Err("why".to_owned()))
            .unwrap_err()
            .text,
        "u answered with something other than JSON: why"
    );
}

#[test]
fn a_request_is_built_to_read() {
    assert_eq!(Request::get("u").method, Method::Get);
    let form = Request::post_form("u", vec![("a".to_owned(), "b".to_owned())]);
    assert_eq!(form.method, Method::Post);
    assert!(matches!(form.body, Body::Form(fields) if fields.len() == 1));
    assert!(form.bearer.is_none());
}

#[test]
fn a_document_is_read_out_of_its_text() {
    let document = Json::parse(r#"{"a":[1,-2,1.5,null,"é"],"b":18446744073709551615}"#).unwrap();
    let items = document.get("a").unwrap().items().unwrap();
    assert_eq!(items[0], Json::Number(Some(1)));
    assert_eq!(items[1], Json::Number(Some(-2)));
    assert_eq!(items[2], Json::Number(None));
    assert_eq!(items[3], Json::Null);
    assert_eq!(items[4], Json::Text("é".to_owned()));
    assert_eq!(
        document.get("b"),
        Some(&Json::Number(Some(18_446_744_073_709_551_615)))
    );
    assert_eq!(document.get("c"), None);
    assert_eq!(document.copy(), document);
    assert!(Json::parse("{").is_err());
}

// ── Addresses ──────────────────────────────────────────────────────────

#[test]
fn a_segment_is_escaped_byte_by_byte_and_a_path_keeps_its_slashes() {
    assert_eq!(segment("a b/é~"), "a+b%2F%C3%A9~");
    assert_eq!(path("team/api v2"), "team/api+v2");
    assert_eq!(path("/api"), "api");
}

#[test]
fn a_registry_host_is_a_host_under_its_domain_and_nothing_else() {
    assert!(host_under("acrprod.azurecr.io", ".azurecr.io"));
    assert!(host_under("ACRPROD.AzureCR.io", ".azurecr.io"));
    assert!(!host_under("evil.example", ".azurecr.io"));
    assert!(!host_under(".azurecr.io", ".azurecr.io"));
    assert!(!host_under("evil.example/x.azurecr.io", ".azurecr.io"));
    assert!(!host_under("user@acr.azurecr.io", ".azurecr.io"));
    assert!(!host_under("acr.azurecr.io:443", ".azurecr.io"));
}

#[test]
fn the_test_clients_tokens_count_up() {
    let mut client = client(vec![Answer::status(401, "{}"), Answer::ok("{}")]);
    client
        .call(&Audience::Arm, get("https://example/one"))
        .unwrap();
    assert_eq!(
        client.transport.bearers(),
        [
            Some("arm-token-1".to_owned()),
            Some("arm-token-2".to_owned())
        ],
        "a token that was minted again is another"
    );
    assert_eq!(client.tenant(), None);
    assert!(client.clock.taken.is_empty());
}
