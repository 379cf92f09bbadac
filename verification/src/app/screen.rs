//! What a tab is, and what the shell may ask one to do.

use vstd::prelude::*;

use crate::columns::ColumnId;
use crate::config::{ScopeTab, REGISTRIES_TAB, SECRETS_TAB};
use crate::filter::Env;
use crate::kube::{self, said, Kind};
use crate::worker;

verus! {

/// The two tabs that are there whatever clusters are configured.
#[derive(Clone, Copy, Debug, Hash, PartialEq, Eq, Structural)]
pub enum TabId {
    Secrets,
    Registries,
}

impl TabId {
    pub open spec fn label_text(self) -> Seq<char> {
        match self {
            TabId::Secrets => "Secrets"@,
            TabId::Registries => "Registries"@,
        }
    }

    pub open spec fn short_text(self) -> Seq<char> {
        match self {
            TabId::Secrets => "Sec"@,
            TabId::Registries => "Reg"@,
        }
    }

    pub open spec fn numeral(self) -> char {
        match self {
            TabId::Secrets => '1',
            TabId::Registries => '2',
        }
    }

    /// Both tabs, in the bar's order.
    #[must_use]
    pub fn all() -> (r: [TabId; 2])
        ensures
            r@ == seq![TabId::Secrets, TabId::Registries],
    {
        let all = [TabId::Secrets, TabId::Registries];
        proof {
            assert(all@ =~= seq![TabId::Secrets, TabId::Registries]);
        }
        all
    }

    #[must_use]
    pub fn label(self) -> (r: &'static str)
        ensures
            r@ == self.label_text(),
    {
        match self {
            TabId::Secrets => "Secrets",
            TabId::Registries => "Registries",
        }
    }

    /// What the tab bar falls back to when the terminal is narrow.
    #[must_use]
    pub fn short_label(self) -> (r: &'static str)
        ensures
            r@ == self.short_text(),
    {
        match self {
            TabId::Secrets => "Sec",
            TabId::Registries => "Reg",
        }
    }

    #[must_use]
    pub fn number(self) -> (r: char)
        ensures
            r == self.numeral(),
    {
        match self {
            TabId::Secrets => '1',
            TabId::Registries => '2',
        }
    }

    /// The tab a number names.
    pub open spec fn numbered(key: char) -> Option<Self> {
        if key == '1' {
            Some(TabId::Secrets)
        } else if key == '2' {
            Some(TabId::Registries)
        } else {
            None
        }
    }

    #[must_use]
    pub fn from_number(key: char) -> (r: Option<Self>)
        ensures
            r == TabId::numbered(key),
    {
        match key {
            '1' => Some(TabId::Secrets),
            '2' => Some(TabId::Registries),
            _ => None,
        }
    }
}

/// A tab is found again by its own number, and a number names one tab at
/// most.
pub proof fn law_a_tab_is_found_by_its_number(tab: TabId, key: char)
    ensures
        TabId::numbered(tab.numeral()) == Some(tab),
        TabId::numbered(key) == Some(tab) ==> key == tab.numeral(),
{
}

/// One tab of the bar.
#[derive(Clone, Debug, PartialEq, Eq)]
pub enum Tab {
    Scope(ScopeTab),
    Secrets,
    Registries,
}

impl Tab {
    /// What the session file calls the tab.
    pub open spec fn key_text(self) -> Seq<char> {
        match self {
            Tab::Scope(tab) => tab.scope@.described(),
            Tab::Secrets => SECRETS_TAB@,
            Tab::Registries => REGISTRIES_TAB@,
        }
    }

    pub open spec fn label_text(self) -> Seq<char> {
        match self {
            Tab::Scope(tab) => tab.label@,
            Tab::Secrets => TabId::Secrets.label_text(),
            Tab::Registries => TabId::Registries.label_text(),
        }
    }

    pub open spec fn short_text(self) -> Seq<char> {
        match self {
            Tab::Scope(tab) => tab.label@,
            Tab::Secrets => TabId::Secrets.short_text(),
            Tab::Registries => TabId::Registries.short_text(),
        }
    }

    /// What the session file calls the tab.
    #[must_use]
    pub fn key(&self) -> (r: String)
        ensures
            r@ == self.key_text(),
    {
        match self {
            Tab::Scope(tab) => tab.scope.describe(),
            Tab::Secrets => SECRETS_TAB.to_owned(),
            Tab::Registries => REGISTRIES_TAB.to_owned(),
        }
    }

    #[must_use]
    pub fn label(&self) -> (r: &str)
        ensures
            r@ == self.label_text(),
    {
        match self {
            Tab::Scope(tab) => tab.label.as_str(),
            Tab::Secrets => TabId::Secrets.label(),
            Tab::Registries => TabId::Registries.label(),
        }
    }

    /// What the tab bar falls back to when the terminal is narrow.
    #[must_use]
    pub fn short_label(&self) -> (r: &str)
        ensures
            r@ == self.short_text(),
    {
        match self {
            Tab::Scope(tab) => tab.label.as_str(),
            Tab::Secrets => TabId::Secrets.short_label(),
            Tab::Registries => TabId::Registries.short_label(),
        }
    }
}

/// The tabs in the bar's order: every scope, then Secrets, then Registries.
#[must_use]
pub fn tabs(scopes: Vec<ScopeTab>) -> (r: Vec<Tab>)
    ensures
        r@ == scopes@.map_values(|tab: ScopeTab| Tab::Scope(tab)).push(Tab::Secrets).push(
            Tab::Registries,
        ),
{
    let ghost all = scopes@;
    let mut out: Vec<Tab> = Vec::new();
    for tab in iter: scopes.into_iter()
        invariant
            iter.seq() == all,
            out@.len() == iter.index(),
            forall|k: int| 0 <= k < out@.len() ==> out@[k] == Tab::Scope(all[k]),
    {
        out.push(Tab::Scope(tab));
    }
    proof {
        assert(out@ =~= all.map_values(|tab: ScopeTab| Tab::Scope(tab)));
    }
    out.push(Tab::Secrets);
    out.push(Tab::Registries);
    out
}

/// One button of a scope tab's toolbar.
#[derive(Clone, Copy, Debug, PartialEq, Eq, Structural)]
pub enum Button {
    Logs,
    Describe,
    Yaml,
    Bash,
    Restart,
    Scale,
    /// The pod an event is about.
    Pod,
    Value,
    Copy,
}

/// Something on screen a click can land on.
///
/// The shell keeps a list of them rebuilt every frame and resolves a click to
/// the **last** region containing the point — drawn last is on top, which is
/// what puts a modal over the table under it.
#[derive(Clone, Copy, Debug, PartialEq, Eq, Structural)]
pub enum Target {
    Tab(usize),
    /// A row of the table, by its index among the rows currently shown.
    Row(usize),
    /// A column header.
    Header(ColumnId),
    SearchField,
    ClearSearch,
    Details,
    Help,
    /// The pill that says which kind shows.
    KindPill,
    KindOption(Kind),
    EnvOption(Option<Env>),
    Button(Button),
    /// The open question's yes.
    Confirm,
    /// The open question's body.
    Modal,
    TextPane,
    /// A key of a configmap or a secret, in the details.
    KeyRow(usize),
}

/// What a screen wants the run loop to do next. A screen never talks to the
/// worker, the clipboard or the browser itself: it says what it wants and the
/// loop does it.
#[derive(Debug, PartialEq, Eq)]
pub enum AppAction {
    /// Nothing more.
    Nothing,
    /// Put this on the clipboard and say `label` in the status bar. The label
    /// never contains a value that was copied.
    Copy { text: String, label: String },
    Azure(worker::Request),
    Kube(kube::Request),
    /// Hand the terminal to a shell in this pod.
    Exec { context: String, namespace: String, pod: String, container: Option<String> },
    OpenUrl(String),
    Quit,
}

pub enum ActionView {
    Nothing,
    Copy { text: Seq<char>, label: Seq<char> },
    Azure(worker::RequestView),
    Kube(kube::RequestView),
    Exec {
        context: Seq<char>,
        namespace: Seq<char>,
        pod: Seq<char>,
        container: Option<Seq<char>>,
    },
    OpenUrl(Seq<char>),
    Quit,
}

impl View for AppAction {
    type V = ActionView;

    open spec fn view(&self) -> ActionView {
        match self {
            AppAction::Nothing => ActionView::Nothing,
            AppAction::Copy { text, label } => ActionView::Copy { text: text@, label: label@ },
            AppAction::Azure(request) => ActionView::Azure(request@),
            AppAction::Kube(request) => ActionView::Kube(request@),
            AppAction::Exec { context, namespace, pod, container } => ActionView::Exec {
                context: context@,
                namespace: namespace@,
                pod: pod@,
                container: said(*container),
            },
            AppAction::OpenUrl(url) => ActionView::OpenUrl(url@),
            AppAction::Quit => ActionView::Quit,
        }
    }
}

/// What a request to a cluster's worker, where there is one, asks of the run
/// loop.
pub open spec fn asked_of_kube(request: Option<kube::RequestView>) -> ActionView {
    match request {
        Some(request) => ActionView::Kube(request),
        None => ActionView::Nothing,
    }
}

/// What an optional request says.
pub open spec fn request_said(request: Option<kube::Request>) -> Option<kube::RequestView> {
    match request {
        Some(request) => Some(request@),
        None => None,
    }
}

pub fn kube_action(request: Option<kube::Request>) -> (r: AppAction)
    ensures
        r@ == asked_of_kube(request_said(request)),
{
    match request {
        Some(request) => AppAction::Kube(request),
        None => AppAction::Nothing,
    }
}

/// What an optional request says.
pub open spec fn azure_said(request: Option<worker::Request>) -> Option<worker::RequestView> {
    match request {
        Some(request) => Some(request@),
        None => None,
    }
}

} // verus!
