//! What the Azure worker is asked and answers.

use vstd::prelude::*;

use crate::azure::{Inventory, Manifest, Repository, Secret, SecretRow, SecretVersion, Tag};
use crate::kube::said;

verus! {

/// What the Azure worker is asked for.
#[derive(Debug, PartialEq, Eq)]
pub enum Request {
    /// Every vault and every registry, read again.
    Refresh,
    Value { vault: String, name: String, version: Option<String> },
    Versions { vault: String, name: String },
    Tags { registry: String, repo: String },
    Manifest { registry: String, repo: String, digest: String },
}

pub enum RequestView {
    Refresh,
    Value { vault: Seq<char>, name: Seq<char>, version: Option<Seq<char>> },
    Versions { vault: Seq<char>, name: Seq<char> },
    Tags { registry: Seq<char>, repo: Seq<char> },
    Manifest { registry: Seq<char>, repo: Seq<char>, digest: Seq<char> },
}

impl View for Request {
    type V = RequestView;

    open spec fn view(&self) -> RequestView {
        match self {
            Request::Refresh => RequestView::Refresh,
            Request::Value { vault, name, version } => RequestView::Value {
                vault: vault@,
                name: name@,
                version: said(*version),
            },
            Request::Versions { vault, name } => RequestView::Versions {
                vault: vault@,
                name: name@,
            },
            Request::Tags { registry, repo } => RequestView::Tags {
                registry: registry@,
                repo: repo@,
            },
            Request::Manifest { registry, repo, digest } => RequestView::Manifest {
                registry: registry@,
                repo: repo@,
                digest: digest@,
            },
        }
    }
}

/// What the Azure worker answers with.
#[allow(inconsistent_fields)]
pub enum Event {
    Inventory(Result<Inventory, String>),
    Secrets { vault: String, result: Result<Vec<SecretRow>, String> },
    Repositories { registry: String, result: Result<Vec<Repository>, String> },
    /// One repository's counts and stamps, filled in.
    Repository { registry: String, repository: Repository },
    Tags { registry: String, repo: String, result: Result<Vec<Tag>, String> },
    Manifest {
        registry: String,
        repo: String,
        digest: String,
        result: Result<Manifest, String>,
    },
    Versions { vault: String, name: String, result: Result<Vec<SecretVersion>, String> },
    Value { vault: String, name: String, result: Result<(Secret, String), String> },
    /// What is being read right now.
    Progress(String),
    /// Everything that was asked for has been read.
    Idle,
}

} // verus!
