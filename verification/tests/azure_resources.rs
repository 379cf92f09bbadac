use az_tui::azure::allow::{allowed, missing};
use az_tui::azure::{portal_url, Secret};

#[test]
fn a_secret_never_prints_itself() {
    let secret = Secret::new("hunter2");
    assert_eq!(secret.printed(), "[redacted]");
    assert!(!secret.printed().contains("hunter2"));
    assert_eq!(secret.expose(), "hunter2");
}

#[test]
fn a_secret_counts_its_lines_without_showing_them() {
    assert_eq!(Secret::new("").line_count(), 1);
    assert_eq!(Secret::new("one").line_count(), 1);
    assert_eq!(Secret::new("one\ntwo\nthree").line_count(), 3);
}

#[test]
fn a_portal_url_carries_the_resource_id() {
    assert_eq!(
        portal_url("/subscriptions/s/resourceGroups/rg/providers/Microsoft.KeyVault/vaults/kv"),
        "https://portal.azure.com/#@/resource/subscriptions/s/resourceGroups/rg/providers/Microsoft.KeyVault/vaults/kv"
    );
}

#[test]
fn an_allowlist_fixes_the_order_and_ignores_case() {
    let found = vec![
        "kv-dev".to_owned(),
        "kv-prod".to_owned(),
        "kv-qa".to_owned(),
    ];
    let names = vec![
        "KV-PROD".to_owned(),
        " kv-dev ".to_owned(),
        "kv-gone".to_owned(),
    ];
    assert_eq!(
        allowed(found.clone(), &names),
        ["kv-prod", "kv-dev"],
        "the allowlist's order wins, and a name that is not there is absent"
    );
    assert_eq!(missing(&found, &names), ["kv-gone"]);
    assert_eq!(
        allowed(found.clone(), &Vec::new()),
        found,
        "an empty allowlist keeps everything"
    );
}
