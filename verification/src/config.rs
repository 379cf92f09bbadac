//! What a run is configured with: which subscriptions, vaults and registries
//! are read, and which namespaces of which clusters have a tab.

use vstd::prelude::*;

use crate::kube::said;
use crate::text::texts;

verus! {

/// The session key of the Secrets tab.
pub const SECRETS_TAB: &'static str = "secrets";

/// The session key of the Registries tab.
pub const REGISTRIES_TAB: &'static str = "registries";

/// The Azure half of the configuration. An empty list leaves the choice to
/// the login: everything it can reach.
#[derive(Clone, Debug, PartialEq, Eq)]
pub struct Azure {
    pub subscriptions: Vec<String>,
    /// The vaults to read, in the order they are shown.
    pub vaults: Vec<String>,
    /// The registries to read, in the order they are shown.
    pub registries: Vec<String>,
    /// Seconds before what is on file is too old to answer from.
    pub refresh: Option<u64>,
}

pub struct AzureView {
    pub subscriptions: Seq<Seq<char>>,
    pub vaults: Seq<Seq<char>>,
    pub registries: Seq<Seq<char>>,
    pub refresh: Option<u64>,
}

impl View for Azure {
    type V = AzureView;

    open spec fn view(&self) -> AzureView {
        AzureView {
            subscriptions: texts(self.subscriptions@),
            vaults: texts(self.vaults@),
            registries: texts(self.registries@),
            refresh: self.refresh,
        }
    }
}

impl Default for Azure {
    fn default() -> (r: Self)
        ensures
            r.subscriptions@.len() == 0,
            r.vaults@.len() == 0,
            r.registries@.len() == 0,
            r.refresh is None,
    {
        Azure {
            subscriptions: Vec::new(),
            vaults: Vec::new(),
            registries: Vec::new(),
            refresh: None,
        }
    }
}

/// The configuration of a run.
#[derive(Clone, Debug, PartialEq, Eq)]
pub struct Config {
    pub azure: Azure,
    /// Seconds between reads of the open cluster tab.
    pub refresh: Option<u64>,
}

/// One namespace of one cluster, or every namespace of it.
#[derive(Clone, Debug, PartialEq, Eq)]
pub struct Scope {
    pub cluster: String,
    /// What `kubectl --context` is given.
    pub context: String,
    pub namespace: Option<String>,
}

pub struct ScopeName {
    pub cluster: Seq<char>,
    pub context: Seq<char>,
    pub namespace: Option<Seq<char>>,
}

impl ScopeName {
    /// `qa/dev`, or `qa/all` for a tab over every namespace.
    pub open spec fn described(self) -> Seq<char> {
        match self.namespace {
            Some(namespace) => self.cluster + "/"@ + namespace,
            None => self.cluster + "/all"@,
        }
    }
}

impl View for Scope {
    type V = ScopeName;

    open spec fn view(&self) -> ScopeName {
        ScopeName {
            cluster: self.cluster@,
            context: self.context@,
            namespace: said(self.namespace),
        }
    }
}

impl Scope {
    /// `qa/dev`, or `qa/all` for a tab over every namespace.
    #[must_use]
    pub fn describe(&self) -> (r: String)
        ensures
            r@ == self@.described(),
    {
        let mut name = self.cluster.clone();
        match &self.namespace {
            Some(namespace) => {
                name.push_str("/");
                name.push_str(namespace.as_str());
            },
            None => {
                name.push_str("/all");
            },
        }
        name
    }
}

/// One tab over a scope, as the configuration names it.
#[derive(Clone, Debug, PartialEq, Eq)]
pub struct ScopeTab {
    pub label: String,
    pub scope: Scope,
}

} // verus!
