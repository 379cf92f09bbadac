//! What a cluster holds, as this program shows it, and what its worker is
//! asked and answers.

use vstd::prelude::*;

use crate::azure::{views, Secret};
use crate::text::{equal, texts};
use crate::timestamp::Timestamp;

verus! {

/// The four kinds of row a namespace is shown as.
#[derive(Clone, Copy, Debug, Hash, PartialEq, Eq, Structural)]
pub enum Kind {
    Pods,
    Events,
    ConfigMaps,
    Secrets,
}

/// How many kinds there are.
pub const KIND_COUNT: usize = 4;

impl Kind {
    /// Where the kind stands in the menu.
    pub open spec fn place(self) -> int {
        match self {
            Kind::Pods => 0,
            Kind::Events => 1,
            Kind::ConfigMaps => 2,
            Kind::Secrets => 3,
        }
    }

    /// The kind on a line of the menu.
    pub open spec fn at(place: int) -> Kind {
        if place == 0 {
            Kind::Pods
        } else if place == 1 {
            Kind::Events
        } else if place == 2 {
            Kind::ConfigMaps
        } else {
            Kind::Secrets
        }
    }

    /// What a sentence calls the rows, which is also what the session file
    /// calls the kind.
    pub open spec fn noun_text(self) -> Seq<char> {
        match self {
            Kind::Pods => "pods"@,
            Kind::Events => "events"@,
            Kind::ConfigMaps => "configmaps"@,
            Kind::Secrets => "secrets"@,
        }
    }

    #[must_use]
    pub fn position(self) -> (r: usize)
        ensures
            r == self.place(),
            r < KIND_COUNT,
    {
        match self {
            Kind::Pods => 0,
            Kind::Events => 1,
            Kind::ConfigMaps => 2,
            Kind::Secrets => 3,
        }
    }

    #[must_use]
    pub fn from_position(place: usize) -> (r: Kind)
        ensures
            r == Kind::at(place as int),
    {
        match place {
            0 => Kind::Pods,
            1 => Kind::Events,
            2 => Kind::ConfigMaps,
            _ => Kind::Secrets,
        }
    }

    /// What a sentence calls the rows.
    #[must_use]
    pub fn noun(self) -> (r: &'static str)
        ensures
            r@ == self.noun_text(),
    {
        match self {
            Kind::Pods => "pods",
            Kind::Events => "events",
            Kind::ConfigMaps => "configmaps",
            Kind::Secrets => "secrets",
        }
    }

    /// What the session file calls the kind.
    #[must_use]
    pub fn session_key(self) -> (r: &'static str)
        ensures
            r@ == self.noun_text(),
    {
        self.noun()
    }

    /// The kind the session file names, where this build knows it.
    pub open spec fn named(key: Seq<char>) -> Option<Kind> {
        if key == "pods"@ {
            Some(Kind::Pods)
        } else if key == "events"@ {
            Some(Kind::Events)
        } else if key == "configmaps"@ {
            Some(Kind::ConfigMaps)
        } else if key == "secrets"@ {
            Some(Kind::Secrets)
        } else {
            None
        }
    }

    #[must_use]
    pub fn from_session_key(key: &str) -> (r: Option<Kind>)
        ensures
            r == Kind::named(key@),
    {
        if equal(key, "pods") {
            Some(Kind::Pods)
        } else if equal(key, "events") {
            Some(Kind::Events)
        } else if equal(key, "configmaps") {
            Some(Kind::ConfigMaps)
        } else if equal(key, "secrets") {
            Some(Kind::Secrets)
        } else {
            None
        }
    }
}

/// What the session file calls a kind is read back as that kind.
pub proof fn law_a_kind_survives_the_session_file(kind: Kind)
    ensures
        Kind::named(kind.noun_text()) == Some(kind),
        Kind::at(kind.place()) == kind,
{
    reveal_strlit("pods");
    reveal_strlit("events");
    reveal_strlit("configmaps");
    reveal_strlit("secrets");
    assert("events"@.len() == 6);
    assert("secrets"@.len() == 7);
    assert("pods"@.len() == 4);
    assert("configmaps"@.len() == 10);
}

/// Which pod of which namespace of which cluster.
#[derive(Debug, PartialEq, Eq)]
pub struct PodKey {
    pub cluster: String,
    pub namespace: String,
    pub name: String,
}

pub struct PodKeyView {
    pub cluster: Seq<char>,
    pub namespace: Seq<char>,
    pub name: Seq<char>,
}

impl View for PodKey {
    type V = PodKeyView;

    open spec fn view(&self) -> PodKeyView {
        PodKeyView { cluster: self.cluster@, namespace: self.namespace@, name: self.name@ }
    }
}

impl Clone for PodKey {
    fn clone(&self) -> (r: Self)
        ensures
            r == *self,
    {
        PodKey {
            cluster: self.cluster.clone(),
            namespace: self.namespace.clone(),
            name: self.name.clone(),
        }
    }
}

impl PodKey {
    /// Whether it is the same pod.
    #[must_use]
    pub fn is(&self, other: &PodKey) -> (r: bool)
        ensures
            r == (self@ == other@),
    {
        self.cluster == other.cluster && self.namespace == other.namespace && self.name
            == other.name
    }
}

/// Something `kubectl` can be asked about: its kind, where it is, its name.
#[derive(Debug, PartialEq, Eq)]
pub struct ObjectRef {
    pub kind: String,
    pub namespace: String,
    pub name: String,
}

pub struct ObjectView {
    pub kind: Seq<char>,
    pub namespace: Seq<char>,
    pub name: Seq<char>,
}

impl View for ObjectRef {
    type V = ObjectView;

    open spec fn view(&self) -> ObjectView {
        ObjectView { kind: self.kind@, namespace: self.namespace@, name: self.name@ }
    }
}

impl ObjectView {
    /// `deployment/orders-api`.
    pub open spec fn slashed(self) -> Seq<char> {
        self.kind + "/"@ + self.name
    }

    pub open spec fn of_pod(key: PodKeyView) -> Self {
        ObjectView { kind: "pod"@, namespace: key.namespace, name: key.name }
    }
}

impl Clone for ObjectRef {
    fn clone(&self) -> (r: Self)
        ensures
            r == *self,
    {
        ObjectRef {
            kind: self.kind.clone(),
            namespace: self.namespace.clone(),
            name: self.name.clone(),
        }
    }
}

impl ObjectRef {
    #[must_use]
    pub fn pod(key: &PodKey) -> (r: Self)
        ensures
            r@ == ObjectView::of_pod(key@),
    {
        ObjectRef {
            kind: "pod".to_owned(),
            namespace: key.namespace.clone(),
            name: key.name.clone(),
        }
    }

    /// Whether it is the same object.
    #[must_use]
    pub fn is(&self, other: &ObjectRef) -> (r: bool)
        ensures
            r == (self@ == other@),
    {
        self.kind == other.kind && self.namespace == other.namespace && self.name == other.name
    }

    /// `deployment/orders-api`, as `kubectl` takes it.
    #[must_use]
    pub fn slash(&self) -> (r: String)
        ensures
            r@ == self@.slashed(),
    {
        let mut said = self.kind.clone();
        said.push_str("/");
        said.push_str(self.name.as_str());
        said
    }
}

#[derive(Debug, PartialEq, Eq)]
pub struct Container {
    pub name: String,
    pub image: String,
    pub ready: bool,
    pub restarts: u32,
}

#[derive(Debug, PartialEq, Eq)]
pub struct Pod {
    pub key: PodKey,
    /// What `kubectl get pods` says of it: `Running`, `CrashLoopBackOff`.
    pub status: String,
    /// How many of its containers are up, of how many.
    pub ready: (u32, u32),
    pub restarts: u32,
    pub node: String,
    pub ip: String,
    /// The kind and the name of what put it there.
    pub owner: Option<(String, String)>,
    /// Its `app` label.
    pub app: Option<String>,
    pub containers: Vec<Container>,
    pub created: Option<Timestamp>,
}

pub struct ContainerView {
    pub name: Seq<char>,
    pub image: Seq<char>,
    pub ready: bool,
    pub restarts: u32,
}

impl View for Container {
    type V = ContainerView;

    open spec fn view(&self) -> ContainerView {
        ContainerView {
            name: self.name@,
            image: self.image@,
            ready: self.ready,
            restarts: self.restarts,
        }
    }
}

pub struct PodView {
    pub key: PodKeyView,
    pub status: Seq<char>,
    pub ready: (u32, u32),
    pub restarts: u32,
    pub node: Seq<char>,
    pub ip: Seq<char>,
    pub owner: Option<(Seq<char>, Seq<char>)>,
    pub app: Option<Seq<char>>,
    pub containers: Seq<ContainerView>,
    pub created: Option<Timestamp>,
}

impl View for Pod {
    type V = PodView;

    open spec fn view(&self) -> PodView {
        PodView {
            key: self.key@,
            status: self.status@,
            ready: self.ready,
            restarts: self.restarts,
            node: self.node@,
            ip: self.ip@,
            owner: match self.owner {
                Some(owner) => Some((owner.0@, owner.1@)),
                None => None,
            },
            app: said(self.app),
            containers: views(self.containers@),
            created: self.created,
        }
    }
}

/// The same containers again.
fn copy_containers(held: &Vec<Container>) -> (r: Vec<Container>)
    ensures
        views(r@) == views(held@),
{
    let mut out: Vec<Container> = Vec::new();
    let mut i: usize = 0;
    while i < held.len()
        invariant
            i <= held@.len(),
            out@.len() == i,
            forall|k: int| 0 <= k < i ==> (#[trigger] out@[k])@ == held@[k]@,
        decreases held@.len() - i,
    {
        out.push(
            Container {
                name: held[i].name.clone(),
                image: held[i].image.clone(),
                ready: held[i].ready,
                restarts: held[i].restarts,
            },
        );
        i = i + 1;
    }
    proof {
        assert(views(out@) =~= views(held@));
    }
    out
}

impl Pod {
    #[must_use]
    pub fn copy(&self) -> (r: Self)
        ensures
            r@ == self@,
    {
        let owner = match &self.owner {
            Some(owner) => Some((owner.0.clone(), owner.1.clone())),
            None => None,
        };
        Pod {
            key: self.key.clone(),
            status: self.status.clone(),
            ready: self.ready,
            restarts: self.restarts,
            node: self.node.clone(),
            ip: self.ip.clone(),
            owner,
            app: copy_text(&self.app),
            containers: copy_containers(&self.containers),
            created: self.created,
        }
    }

    pub open spec fn owner_text(self) -> Seq<char> {
        match self.owner {
            Some(owner) => owner.1@,
            None => ""@,
        }
    }

    /// The name of what put the pod there, or nothing.
    #[must_use]
    pub fn owner_name(&self) -> (r: &str)
        ensures
            r@ == self.owner_text(),
    {
        match &self.owner {
            Some(owner) => owner.1.as_str(),
            None => "",
        }
    }

    /// Whether something is wrong with the pod: it is neither running nor
    /// done, or not all of it is up while it runs.
    pub open spec fn in_trouble(self) -> bool {
        if self.status@ == "Running"@ {
            self.ready.0 < self.ready.1
        } else {
            self.status@ != "Completed"@ && self.status@ != "Succeeded"@
        }
    }

    #[must_use]
    pub fn is_unhealthy(&self) -> (r: bool)
        ensures
            r == self.in_trouble(),
    {
        if equal(self.status.as_str(), "Running") {
            self.ready.0 < self.ready.1
        } else {
            !equal(self.status.as_str(), "Completed") && !equal(self.status.as_str(), "Succeeded")
        }
    }
}

/// Something that happened to an object.
#[derive(Debug, PartialEq, Eq)]
pub struct K8sEvent {
    pub namespace: String,
    pub name: String,
    /// `Normal` or `Warning`.
    pub kind: String,
    pub reason: String,
    /// What it happened to.
    pub object: ObjectRef,
    pub message: String,
    /// How many times it happened.
    pub count: u64,
    /// When it happened last.
    pub last: Option<Timestamp>,
}

#[derive(Debug, PartialEq, Eq)]
pub struct ConfigMap {
    pub namespace: String,
    pub name: String,
    pub data: Vec<(String, String)>,
    pub created: Option<Timestamp>,
}

impl ConfigMap {
    pub open spec fn object_view(self) -> ObjectView {
        ObjectView { kind: "configmap"@, namespace: self.namespace@, name: self.name@ }
    }

    #[must_use]
    pub fn object(&self) -> (r: ObjectRef)
        ensures
            r@ == self.object_view(),
    {
        ObjectRef {
            kind: "configmap".to_owned(),
            namespace: self.namespace.clone(),
            name: self.name.clone(),
        }
    }
}

/// A secret as a listing gives it: its keys and how long each value is, never
/// a value.
#[derive(Debug, PartialEq, Eq)]
pub struct SecretMeta {
    pub namespace: String,
    pub name: String,
    pub kind: String,
    pub keys: Vec<(String, u64)>,
    pub created: Option<Timestamp>,
}

impl SecretMeta {
    pub open spec fn object_view(self) -> ObjectView {
        ObjectView { kind: "secret"@, namespace: self.namespace@, name: self.name@ }
    }

    #[must_use]
    pub fn object(&self) -> (r: ObjectRef)
        ensures
            r@ == self.object_view(),
    {
        ObjectRef {
            kind: "secret".to_owned(),
            namespace: self.namespace.clone(),
            name: self.name.clone(),
        }
    }
}

/// How many pods an owner wants and how many are up.
#[derive(Clone, Copy, Debug, PartialEq, Eq, Structural)]
pub struct Replicas {
    pub desired: u32,
    pub ready: u32,
}

#[derive(Clone, Copy, Debug, Hash, PartialEq, Eq, Structural)]
pub enum TextKind {
    Describe,
    Yaml,
}

/// The log a pane follows: the pod, the container chosen, and whether the run
/// before the last restart was asked for.
#[derive(Debug, PartialEq, Eq)]
pub struct LogFollow {
    pub scope: usize,
    pub key: PodKey,
    pub container: Option<String>,
    pub previous: bool,
}

pub struct LogView {
    pub scope: usize,
    pub key: PodKeyView,
    pub container: Option<Seq<char>>,
    pub previous: bool,
}

/// What an optional string spells.
pub open spec fn said(text: Option<String>) -> Option<Seq<char>> {
    match text {
        Some(text) => Some(text@),
        None => None,
    }
}

/// A copy of an optional string.
pub fn copy_text(text: &Option<String>) -> (r: Option<String>)
    ensures
        r == *text,
{
    match text {
        Some(text) => Some(text.clone()),
        None => None,
    }
}

/// Whether two optional strings spell the same.
pub fn same_text(a: &Option<String>, b: &Option<String>) -> (r: bool)
    ensures
        r == (said(*a) == said(*b)),
{
    match (a, b) {
        (Some(a), Some(b)) => equal(a.as_str(), b.as_str()),
        (None, None) => true,
        _ => false,
    }
}

impl View for LogFollow {
    type V = LogView;

    open spec fn view(&self) -> LogView {
        LogView {
            scope: self.scope,
            key: self.key@,
            container: said(self.container),
            previous: self.previous,
        }
    }
}

impl Clone for LogFollow {
    fn clone(&self) -> (r: Self)
        ensures
            r == *self,
    {
        LogFollow {
            scope: self.scope,
            key: self.key.clone(),
            container: copy_text(&self.container),
            previous: self.previous,
        }
    }
}

impl LogFollow {
    /// Whether it is the same stream.
    #[must_use]
    pub fn is(&self, other: &LogFollow) -> (r: bool)
        ensures
            r == (self@ == other@),
    {
        self.scope == other.scope && self.key.is(&other.key) && same_text(
            &self.container,
            &other.container,
        ) && self.previous == other.previous
    }
}

/// What the cluster's worker is asked for.
#[derive(Debug, PartialEq, Eq)]
#[allow(inconsistent_fields)]
pub enum Request {
    /// This kind of this scope is on screen: read it now and keep it fresh.
    Showing(usize, Kind),
    Refresh(usize),
    Follow(LogFollow),
    Unfollow,
    Describe { scope: usize, object: ObjectRef },
    Yaml { scope: usize, object: ObjectRef },
    SecretValue { scope: usize, object: ObjectRef, key: String, copy: bool },
    Owner { scope: usize, object: ObjectRef },
    Delete { scope: usize, key: PodKey },
    RolloutRestart { scope: usize, object: ObjectRef },
    Scale { scope: usize, object: ObjectRef, replicas: u32 },
}

#[allow(inconsistent_fields)]
pub enum RequestView {
    Showing(usize, Kind),
    Refresh(usize),
    Follow(LogView),
    Unfollow,
    Describe { scope: usize, object: ObjectView },
    Yaml { scope: usize, object: ObjectView },
    SecretValue { scope: usize, object: ObjectView, key: Seq<char>, copy: bool },
    Owner { scope: usize, object: ObjectView },
    Delete { scope: usize, key: PodKeyView },
    RolloutRestart { scope: usize, object: ObjectView },
    Scale { scope: usize, object: ObjectView, replicas: u32 },
}

impl View for Request {
    type V = RequestView;

    open spec fn view(&self) -> RequestView {
        match self {
            Request::Showing(scope, kind) => RequestView::Showing(*scope, *kind),
            Request::Refresh(scope) => RequestView::Refresh(*scope),
            Request::Follow(target) => RequestView::Follow(target@),
            Request::Unfollow => RequestView::Unfollow,
            Request::Describe { scope, object } => RequestView::Describe {
                scope: *scope,
                object: object@,
            },
            Request::Yaml { scope, object } => RequestView::Yaml { scope: *scope, object: object@ },
            Request::SecretValue { scope, object, key, copy } => RequestView::SecretValue {
                scope: *scope,
                object: object@,
                key: key@,
                copy: *copy,
            },
            Request::Owner { scope, object } => RequestView::Owner {
                scope: *scope,
                object: object@,
            },
            Request::Delete { scope, key } => RequestView::Delete { scope: *scope, key: key@ },
            Request::RolloutRestart { scope, object } => RequestView::RolloutRestart {
                scope: *scope,
                object: object@,
            },
            Request::Scale { scope, object, replicas } => RequestView::Scale {
                scope: *scope,
                object: object@,
                replicas: *replicas,
            },
        }
    }
}

impl RequestView {
    /// Whether it changes anything in the cluster.
    pub open spec fn changes_the_cluster(self) -> bool {
        self is Delete || self is RolloutRestart || self is Scale
    }
}

/// What the cluster's worker answers with.
#[allow(inconsistent_fields)]
pub enum Event {
    LogLines { target: LogFollow, lines: Vec<String>, finished: bool },
    Text { scope: usize, kind: TextKind, object: ObjectRef, text: Result<Vec<String>, String> },
    Deleted { scope: usize, key: PodKey, error: Option<String> },
    Acted { scope: usize, verb: String, object: ObjectRef, error: Option<String> },
    Owner { scope: usize, object: ObjectRef, replicas: Result<Replicas, String> },
    SecretValue {
        scope: usize,
        object: ObjectRef,
        key: String,
        copy: bool,
        value: Result<Secret, String>,
    },
    Pods { scope: usize, pods: Result<Vec<Pod>, String> },
    Events { scope: usize, events: Result<Vec<K8sEvent>, String> },
    ConfigMaps { scope: usize, configmaps: Result<Vec<ConfigMap>, String> },
    Secrets { scope: usize, secrets: Result<Vec<SecretMeta>, String> },
    /// A read of this scope has begun.
    Reading { scope: usize },
}

/// What a text spells, line by line, or why there is none.
pub open spec fn text_said(text: Result<Vec<String>, String>) -> Result<Seq<Seq<char>>, Seq<char>> {
    match text {
        Ok(lines) => Ok(texts(lines@)),
        Err(message) => Err(message@),
    }
}

} // verus!
