use az_tui::cli::{Cli, Theme};
use az_tui::config::{Azure, Config};

fn file() -> Config {
    Config {
        azure: Azure {
            vaults: vec!["kv-file".to_owned()],
            refresh: Some(30),
            ..Azure::default()
        },
        refresh: None,
    }
}

#[test]
fn a_flag_replaces_the_files_list_and_silence_leaves_it_alone() {
    let merged = Cli::bare().merge(file());
    assert_eq!(merged.azure.vaults, ["kv-file"]);
    assert_eq!(merged.azure.refresh, Some(30));

    let flags = Cli {
        vaults: vec!["kv-flag".to_owned()],
        refresh: Some(0),
        ..Cli::bare()
    };
    let merged = flags.merge(file());
    assert_eq!(merged.azure.vaults, ["kv-flag"]);
    assert_eq!(merged.refresh, Some(0), "the flag is the AKS cadence");
    assert_eq!(
        merged.azure.refresh,
        Some(30),
        "the vaults' is the file's alone"
    );
}

#[test]
fn each_list_is_replaced_on_its_own() {
    let flags = Cli {
        subscriptions: vec!["sub".to_owned()],
        registries: vec!["acr".to_owned()],
        ..Cli::bare()
    };
    let merged = flags.merge(file());
    assert_eq!(merged.azure.subscriptions, ["sub"]);
    assert_eq!(merged.azure.registries, ["acr"]);
    assert_eq!(merged.azure.vaults, ["kv-file"]);
    assert_eq!(merged.refresh, None);
}

#[test]
fn nothing_is_asked_for_until_it_is() {
    let cli = Cli::bare();
    assert!(cli.vaults.is_empty());
    assert!(cli.command.is_none());
    assert!(!cli.no_cache);
}

#[test]
fn the_flags_theme_wins_over_the_environments_and_no_color_over_both() {
    let bare = Cli::bare();
    assert_eq!(bare.resolve_theme(None, false), Ok(Theme::Terminal));
    assert_eq!(bare.resolve_theme(None, true), Ok(Theme::Mono));
    assert_eq!(
        bare.resolve_theme(Some("terminal-light"), false),
        Ok(Theme::TerminalLight)
    );
    let flagged = Cli {
        theme: Some("custom".to_owned()),
        ..Cli::bare()
    };
    assert_eq!(flagged.resolve_theme(Some("mono"), false), Ok(Theme::Custom));
    assert_eq!(flagged.resolve_theme(Some("mono"), true), Ok(Theme::Mono));
    assert_eq!(
        flagged.resolve_theme(Some("neon"), false),
        Ok(Theme::Custom),
        "the environment is not looked at"
    );
    assert_eq!(
        bare.resolve_theme(Some("neon"), true),
        Err("neon".to_owned())
    );
    assert_eq!(Theme::named("mono"), Some(Theme::Mono));
    assert_eq!(Theme::named("Mono"), None);
}
