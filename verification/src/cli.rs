//! The command line: flags that override the configuration file, and the
//! subcommands that read the same things from a shell instead of a screen.

use vstd::prelude::*;

use crate::config::{Azure, Config};
use crate::text::equal;

verus! {

/// What a run paints with.
#[derive(Clone, Copy, Debug, PartialEq, Eq, Structural)]
pub enum Theme {
    /// The terminal's own colours, on a dark background.
    Terminal,
    /// The same, on a light one.
    TerminalLight,
    /// No colour at all.
    Mono,
    /// The colours the configuration file gives.
    Custom,
}

impl Theme {
    /// The theme a name stands for.
    pub open spec fn called(name: Seq<char>) -> Option<Theme> {
        if name == "terminal"@ {
            Some(Theme::Terminal)
        } else if name == "terminal-light"@ {
            Some(Theme::TerminalLight)
        } else if name == "mono"@ {
            Some(Theme::Mono)
        } else if name == "custom"@ {
            Some(Theme::Custom)
        } else {
            None
        }
    }

    /// The theme a name stands for.
    #[must_use]
    pub fn named(name: &str) -> (r: Option<Theme>)
        ensures
            r == Theme::called(name@),
    {
        if equal(name, "terminal") {
            Some(Theme::Terminal)
        } else if equal(name, "terminal-light") {
            Some(Theme::TerminalLight)
        } else if equal(name, "mono") {
            Some(Theme::Mono)
        } else if equal(name, "custom") {
            Some(Theme::Custom)
        } else {
            None
        }
    }
}

/// What was asked for on the command line.
#[derive(Debug)]
pub struct Cli {
    /// Only read these subscriptions; left out, every subscription the login
    /// can see.
    pub subscriptions: Vec<String>,
    /// Only read these key vaults, in the order given.
    pub vaults: Vec<String>,
    /// Only read these container registries, in the order given.
    pub registries: Vec<String>,
    /// Seconds between reads of the open AKS tab; 0 leaves `r` as the only
    /// read. The vault and registry cadence is the file's alone.
    pub refresh: Option<u64>,
    pub theme: Option<String>,
    /// Read this file instead of the one in the configuration directory.
    pub config: Option<String>,
    /// Keep the cache here instead of in the data directory.
    pub cache: Option<String>,
    /// Neither read nor write the cache.
    pub no_cache: bool,
    pub command: Option<Command>,
}

#[derive(Debug)]
#[allow(inconsistent_fields)]
pub enum Command {
    /// Check the az login and tokens, every vault and registry, then every AKS
    /// scope.
    Doctor,
    /// Fetch credentials for every AKS cluster the login can see.
    Setup { write: bool },
    /// One line per secret. Never prints a value.
    Secrets { query: Option<String>, vaults: Vec<String>, json: bool, refresh: bool },
    /// One secret's value. The only command that prints one.
    Secret { command: SecretCommand },
    /// One line per repository.
    Repos { query: Option<String>, registries: Vec<String>, json: bool, refresh: bool },
    /// One line per tag of one repository, newest first.
    Tags { repo: String, registry: Option<String>, json: bool },
}

#[derive(Debug)]
pub enum SecretCommand {
    /// Print one secret's value.
    Get { name: String, vault: Option<String>, version: Option<String>, json: bool },
}

fn chosen(flags: Vec<String>, file: Vec<String>) -> (r: Vec<String>)
    ensures
        r == if flags@.len() > 0 {
            flags
        } else {
            file
        },
{
    if flags.len() > 0 {
        flags
    } else {
        file
    }
}

impl Cli {
    /// With nothing asked for.
    #[must_use]
    pub fn bare() -> (r: Self)
        ensures
            r.subscriptions@.len() == 0,
            r.vaults@.len() == 0,
            r.registries@.len() == 0,
            r.refresh is None,
            r.theme is None,
            r.config is None,
            r.cache is None,
            !r.no_cache,
            r.command is None,
    {
        Cli {
            subscriptions: Vec::new(),
            vaults: Vec::new(),
            registries: Vec::new(),
            refresh: None,
            theme: None,
            config: None,
            cache: None,
            no_cache: false,
            command: None,
        }
    }

    /// What a run is configured with, flags over the file.
    pub open spec fn merged(self, file: Config) -> Config {
        Config {
            azure: Azure {
                subscriptions: if self.subscriptions@.len() > 0 {
                    self.subscriptions
                } else {
                    file.azure.subscriptions
                },
                vaults: if self.vaults@.len() > 0 {
                    self.vaults
                } else {
                    file.azure.vaults
                },
                registries: if self.registries@.len() > 0 {
                    self.registries
                } else {
                    file.azure.registries
                },
                refresh: file.azure.refresh,
            },
            refresh: if self.refresh is Some {
                self.refresh
            } else {
                file.refresh
            },
        }
    }

    /// The configuration this run works from: the file, then every flag that
    /// was given on top of it. A flag wins over the file; an empty list of
    /// flags leaves the file's list alone.
    #[must_use]
    pub fn merge(self, config: Config) -> (r: Config)
        ensures
            r == self.merged(config),
    {
        Config {
            azure: Azure {
                subscriptions: chosen(self.subscriptions, config.azure.subscriptions),
                vaults: chosen(self.vaults, config.azure.vaults),
                registries: chosen(self.registries, config.azure.registries),
                refresh: config.azure.refresh,
            },
            refresh: if self.refresh.is_some() {
                self.refresh
            } else {
                config.refresh
            },
        }
    }
}

impl Cli {
    /// The name of the theme asked for: the flag's, or else the
    /// environment's.
    pub open spec fn theme_asked(self, env: Option<Seq<char>>) -> Option<Seq<char>> {
        match self.theme {
            Some(name) => Some(name@),
            None => env,
        }
    }

    /// Which theme this run paints with. The flag wins over `AZ_TUI_THEME`,
    /// and a terminal that asked for no colour gets none; a name no theme has
    /// comes back as it was given, colour or not.
    pub fn resolve_theme(&self, env: Option<&str>, no_color: bool) -> (r: Result<Theme, String>)
        ensures
            match self.theme_asked(
                match env {
                    Some(name) => Some(name@),
                    None => None,
                },
            ) {
                Some(name) => match Theme::called(name) {
                    Some(theme) => r == Ok::<Theme, String>(
                        if no_color {
                            Theme::Mono
                        } else {
                            theme
                        },
                    ),
                    None => r matches Err(given) && given@ == name,
                },
                None => r == Ok::<Theme, String>(
                    if no_color {
                        Theme::Mono
                    } else {
                        Theme::Terminal
                    },
                ),
            },
    {
        let asked: Option<&str> = match &self.theme {
            Some(name) => Some(name.as_str()),
            None => env,
        };
        let theme = match asked {
            None => Theme::Terminal,
            Some(name) => match Theme::named(name) {
                Some(theme) => theme,
                None => return Err(name.to_owned()),
            },
        };
        Ok(
            if no_color {
                Theme::Mono
            } else {
                theme
            },
        )
    }
}

/// Silence on the command line leaves the file as it is.
pub proof fn law_silence_leaves_the_file_alone(cli: Cli, file: Config)
    requires
        cli.subscriptions@.len() == 0,
        cli.vaults@.len() == 0,
        cli.registries@.len() == 0,
        cli.refresh is None,
    ensures
        cli.merged(file) == file,
{
}

} // verus!
