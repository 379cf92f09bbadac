//! The words a frame is painted with: the tabs, the pills and their menus, the
//! text pane and its border, the modals, and what the details say of a value
//! and of an owner.

use vstd::prelude::*;

use super::pane::{Pane, PaneText, PaneView};
use super::program::App;
use super::scope::{Modal, ModalView, Revealed, ScopeScreen, ScopeView, VerbView};
use super::secrets::seconds_left;
use super::shell::Menu;
use super::state::{menu_lines, AppView};
use crate::filter::{env_choice, env_line, pairs, Env, ENV_COUNT};
use crate::kube::{said, Kind, Pod, Replicas, TextKind, KIND_COUNT};
use crate::store::ScopeData;
use crate::text::{decimal, number, texts};
use crate::timestamp::Timestamp;

verus! {

fn plus(a: &str, b: &str) -> (r: String)
    ensures
        r@ == a@ + b@,
{
    let mut out = a.to_owned();
    out.push_str(b);
    out
}

fn copied(lines: &Vec<String>) -> (r: Vec<String>)
    ensures
        texts(r@) == texts(lines@),
{
    let mut out: Vec<String> = Vec::new();
    let mut i: usize = 0;
    while i < lines.len()
        invariant
            i <= lines@.len(),
            out@.len() == i,
            forall|k: int| 0 <= k < i ==> (#[trigger] out@[k])@ == lines@[k]@,
        decreases lines@.len() - i,
    {
        out.push(lines[i].clone());
        i = i + 1;
    }
    proof {
        assert(texts(out@) =~= texts(lines@));
    }
    out
}

// ---------------------------------------------------------------------------
// The tabs, the pills and their menus
// ---------------------------------------------------------------------------

/// What a pill and a menu call a kind.
pub open spec fn kind_text(kind: Kind) -> Seq<char> {
    match kind {
        Kind::Pods => "Pods"@,
        Kind::Events => "Events"@,
        Kind::ConfigMaps => "ConfigMaps"@,
        Kind::Secrets => "Secrets"@,
    }
}

/// What a pill and a menu call a kind.
#[must_use]
pub fn kind_label(kind: Kind) -> (r: &'static str)
    ensures
        r@ == kind_text(kind),
{
    match kind {
        Kind::Pods => "Pods",
        Kind::Events => "Events",
        Kind::ConfigMaps => "ConfigMaps",
        Kind::Secrets => "Secrets",
    }
}

/// What opens a menu: its name, and a mark that there is more.
#[must_use]
pub fn pill(label: &str) -> (r: String)
    ensures
        r@ == label@ + " ▾"@,
{
    plus(label, " ▾")
}

/// One line of a menu, ticked where it is the one chosen.
pub open spec fn menu_line(chosen: bool, label: Seq<char>) -> Seq<char> {
    (if chosen {
        "✓ "@
    } else {
        "  "@
    }) + label
}

/// What the environment menu calls a choice.
pub open spec fn env_text(env: Option<Env>) -> Seq<char> {
    match env {
        Some(env) => env.spelling(),
        None => "All"@,
    }
}

impl AppView {
    /// The lines of a menu, top down.
    pub open spec fn menu_said(self, menu: Menu) -> Seq<Seq<char>> {
        Seq::new(
            menu_lines(menu) as nat,
            |at: int|
                match menu {
                    Menu::Env => menu_line(env_line(at) == self.env(), env_text(env_line(at))),
                    Menu::Kind => menu_line(
                        Some(Kind::at(at)) == self.kind(),
                        kind_text(Kind::at(at)),
                    ),
                },
        )
    }

    /// What the bar calls a tab: its number, its name and its badge.
    pub open spec fn tab_said(self, at: int, today: Timestamp) -> Seq<char> {
        let name = decimal((at + 1) as nat) + " "@ + self.tabs[at].label_text();
        let badge = if at < self.screens.len() {
            self.screens[at].badge(self.data_at(at as usize), self.store.azure, today)
        } else {
            None
        };
        match badge {
            Some(badge) => name + " "@ + badge,
            None => name,
        }
    }
}

impl App {
    /// The lines of a menu, top down.
    #[must_use]
    pub fn menu_texts(&self, menu: Menu) -> (r: Vec<String>)
        ensures
            texts(r@) == self@.menu_said(menu),
    {
        let count: usize = match menu {
            Menu::Env => ENV_COUNT,
            Menu::Kind => KIND_COUNT,
        };
        let env = self.current_env();
        let kind = self.kind();
        let mut out: Vec<String> = Vec::new();
        let mut at: usize = 0;
        while at < count
            invariant
                at <= count,
                count == menu_lines(menu),
                env == self@.env(),
                kind == self@.kind(),
                out@.len() == at,
                forall|k: int| 0 <= k < at ==> (#[trigger] out@[k])@ == self@.menu_said(menu)[k],
            decreases count - at,
        {
            let (chosen, label): (bool, &'static str) = match menu {
                Menu::Env => {
                    let choice = env_choice(at);
                    (
                        choice == env,
                        match choice {
                            Some(choice) => choice.label(),
                            None => "All",
                        },
                    )
                },
                Menu::Kind => {
                    let choice = Kind::from_position(at);
                    (Some(choice) == kind, kind_label(choice))
                },
            };
            let line = plus(
                if chosen {
                    "✓ "
                } else {
                    "  "
                },
                label,
            );
            proof {
                assert(self@.menu_said(menu)[at as int] == line@);
            }
            out.push(line);
            at = at + 1;
        }
        proof {
            assert(texts(out@) =~= self@.menu_said(menu));
        }
        out
    }

    /// What the bar calls a tab: its number, its name and its badge.
    #[must_use]
    pub fn tab_label(&self, at: usize, today: Timestamp) -> (r: String)
        requires
            at < self.tabs@.len(),
        ensures
            r@ == self@.tab_said(at as int, today),
    {
        let count: usize = self.tabs.len();
        assert(at + 1 <= count);
        let mut out = number((at + 1) as u64);
        out.push_str(" ");
        out.push_str(self.tabs[at].label());
        if let Some(badge) = self.badge(at, today) {
            out.push_str(" ");
            out.push_str(badge.as_str());
        }
        out
    }
}

// ---------------------------------------------------------------------------
// The text pane
// ---------------------------------------------------------------------------

/// What a text is called on the pane's border.
pub open spec fn text_name(kind: TextKind) -> Seq<char> {
    match kind {
        TextKind::Describe => "Describe"@,
        TextKind::Yaml => "YAML"@,
    }
}

fn name_of_text(kind: TextKind) -> (r: &'static str)
    ensures
        r@ == text_name(kind),
{
    match kind {
        TextKind::Describe => "Describe",
        TextKind::Yaml => "YAML",
    }
}

impl ScopeView {
    /// What has come back of a text, or its name while it is being read.
    pub open spec fn text_lines(self, kind: TextKind, data: ScopeData) -> Seq<Seq<char>> {
        match self.selected_object(data) {
            Some(object) => match self.texts.get(kind, object) {
                Some(Ok(lines)) => lines,
                Some(Err(refusal)) => seq![refusal],
                None => seq![text_name(kind) + "…"@],
            },
            None => Seq::empty(),
        }
    }

    /// Every line the pane has, before its filter.
    pub open spec fn pane_lines(self, data: ScopeData) -> Seq<Seq<char>> {
        match self.pane.text {
            PaneText::Log => self.log.lines,
            PaneText::Describe => self.text_lines(TextKind::Describe, data),
            PaneText::Yaml => self.text_lines(TextKind::Yaml, data),
            PaneText::Value => self.pane.value,
        }
    }

    /// What the pane's border says: what is shown, of what, and for a value
    /// of which key. A log pinned to the tail of a stream that is still open
    /// says so.
    pub open spec fn pane_said(self, data: ScopeData) -> Seq<char> {
        let of = match self.selected_object(data) {
            Some(object) => " · "@ + object.name,
            None => ""@,
        };
        match self.pane.text {
            PaneText::Log => "Log"@ + (if self.log.follow && !self.log.finished {
                " · following"@
            } else {
                ""@
            }) + of,
            PaneText::Describe => text_name(TextKind::Describe) + of,
            PaneText::Yaml => text_name(TextKind::Yaml) + of,
            PaneText::Value => "Value"@ + of + match self.selected_key(data) {
                Some(key) => " · "@ + key,
                None => ""@,
            },
        }
    }
}

impl PaneView {
    /// What the pane says of its filter: the words, and how many lines of how
    /// many hold them.
    pub open spec fn filter_said(self, lines: Seq<Seq<char>>) -> Seq<char> {
        if self.filter.text.len() == 0 {
            ""@
        } else {
            "/ "@ + self.filter.text + " · "@ + decimal(self.shown(lines).len()) + "/"@ + decimal(
                lines.len(),
            )
        }
    }
}

impl Pane {
    /// What the pane says of its filter: the words, and how many lines of how
    /// many hold them.
    #[must_use]
    pub fn filter_line(&self, lines: &Vec<String>) -> (r: String)
        ensures
            r@ == self@.filter_said(texts(lines@)),
    {
        if self.filter.is_empty() {
            proof {
                reveal_strlit("");
                assert(""@ =~= Seq::<char>::empty());
            }
            return String::new();
        }
        let shown = self.shown_lines(lines);
        proof {
            assert(texts(shown@).len() == shown@.len());
        }
        let mut out = plus("/ ", self.filter.text());
        out.push_str(" · ");
        out.push_str(number(shown.len() as u64).as_str());
        out.push_str("/");
        out.push_str(number(lines.len() as u64).as_str());
        out
    }
}

impl ScopeScreen {
    fn lines_of_text(&self, kind: TextKind, data: &ScopeData) -> (r: Vec<String>)
        ensures
            texts(r@) == self@.text_lines(kind, *data),
    {
        let mut out: Vec<String> = Vec::new();
        if let Some(object) = self.selected_object(data) {
            match self.text(kind, &object) {
                Some(Ok(lines)) => {
                    return copied(lines);
                },
                Some(Err(refusal)) => out.push(refusal.clone()),
                None => out.push(plus(name_of_text(kind), "…")),
            }
        }
        proof {
            assert(texts(out@) =~= self@.text_lines(kind, *data));
        }
        out
    }

    /// Every line the pane has, before its filter.
    #[must_use]
    pub fn pane_text(&self, data: &ScopeData) -> (r: Vec<String>)
        ensures
            texts(r@) == self@.pane_lines(*data),
    {
        match self.pane.text {
            PaneText::Log => copied(self.log_lines()),
            PaneText::Describe => self.lines_of_text(TextKind::Describe, data),
            PaneText::Yaml => self.lines_of_text(TextKind::Yaml, data),
            PaneText::Value => copied(self.pane_value()),
        }
    }

    /// What the pane's border says.
    #[must_use]
    pub fn pane_title(&self, data: &ScopeData) -> (r: String)
        ensures
            r@ == self@.pane_said(*data),
    {
        let of = match self.selected_name(data) {
            Some(name) => plus(" · ", name.as_str()),
            None => String::new(),
        };
        proof {
            reveal_strlit("");
            assert(""@ =~= Seq::<char>::empty());
        }
        match self.pane.text {
            PaneText::Log => {
                let mut out = plus(
                    "Log",
                    if self.log_following() && !self.log_ended() {
                        " · following"
                    } else {
                        ""
                    },
                );
                out.push_str(of.as_str());
                out
            },
            PaneText::Describe => plus(name_of_text(TextKind::Describe), of.as_str()),
            PaneText::Yaml => plus(name_of_text(TextKind::Yaml), of.as_str()),
            PaneText::Value => {
                let mut out = plus("Value", of.as_str());
                let key = match self.selected_key(data) {
                    Some(key) => plus(" · ", key.as_str()),
                    None => String::new(),
                };
                out.push_str(key.as_str());
                out
            },
        }
    }
}

// ---------------------------------------------------------------------------
// The modals
// ---------------------------------------------------------------------------

/// How many replicas there are.
pub open spec fn replicas_line(count: Replicas) -> Seq<char> {
    "now "@ + decimal(count.desired as nat) + " desired · "@ + decimal(count.ready as nat)
        + " ready"@
}

impl ModalView {
    /// Everything a modal says, top down.
    pub open spec fn lines(self) -> Seq<Seq<char>> {
        match self {
            ModalView::Confirm { title, body, verb } => seq![title] + body + seq![
                match verb {
                    VerbView::Restart(_) => "x again to restart it"@,
                    VerbView::Rollout(_) => "X again to restart the rollout"@,
                },
            ],
            ModalView::Scale { object, input, current } => {
                let asked = seq!["Scale "@ + object.slashed(), "Replicas  [ "@ + input.text];
                match current {
                    Some(count) => asked.push(replicas_line(count)),
                    None => asked,
                }
            },
        }
    }
}

impl Modal {
    /// Everything a modal says, top down.
    #[must_use]
    pub fn lines(&self) -> (r: Vec<String>)
        ensures
            texts(r@) == self@.lines(),
    {
        let mut out: Vec<String> = Vec::new();
        match self {
            Modal::Confirm { title, body, verb } => {
                out.push(title.clone());
                let mut i: usize = 0;
                while i < body.len()
                    invariant
                        i <= body@.len(),
                        out@.len() == i + 1,
                        out@[0]@ == title@,
                        forall|k: int| 1 <= k <= i ==> (#[trigger] out@[k])@ == body@[k - 1]@,
                    decreases body@.len() - i,
                {
                    out.push(body[i].clone());
                    i = i + 1;
                }
                proof {
                    assert(texts(out@) =~= seq![title@] + texts(body@));
                }
                out.push(verb.hint().to_owned());
            },
            Modal::Scale { object, input, current } => {
                out.push(plus("Scale ", object.slash().as_str()));
                out.push(plus("Replicas  [ ", input.text()));
                if let Some(count) = current {
                    let mut line = plus("now ", number(count.desired as u64).as_str());
                    line.push_str(" desired · ");
                    line.push_str(number(count.ready as u64).as_str());
                    line.push_str(" ready");
                    out.push(line);
                }
            },
        }
        proof {
            assert(texts(out@) =~= self@.lines());
        }
        out
    }
}

// ---------------------------------------------------------------------------
// The details
// ---------------------------------------------------------------------------

impl Revealed {
    /// How long a value is still there.
    #[must_use]
    pub fn countdown(&self, now: u64) -> (r: String)
        ensures
            r@ == "clears in "@ + decimal(seconds_left(self.at, now) as nat) + " s"@,
    {
        let mut out = plus("clears in ", number(self.clears_in(now)).as_str());
        out.push_str(" s");
        out
    }
}

impl ScopeView {
    /// The keys of what is under the cursor, one line each, with a mark at
    /// the details cursor.
    pub open spec fn key_lines(self, data: ScopeData) -> Seq<Seq<char>> {
        let keys = self.lists.keys(self.kind, data);
        Seq::new(
            keys.len(),
            |at: int|
                (if at == self.key_cursor {
                    "› "@
                } else {
                    "  "@
                }) + keys[at].0 + "  "@ + keys[at].1,
        )
    }

    /// What is said of the value of the key under the details cursor: how
    /// long it is still there, that it is being read, or why it was refused.
    pub open spec fn value_said(self, data: ScopeData, now: u64) -> Option<Seq<char>> {
        match (self.selected_object(data), self.selected_key(data)) {
            (Some(object), Some(key)) if self.value.shows(object, key) => Some(
                "clears in "@ + decimal(seconds_left(self.value.revealed->0.at, now) as nat) + " s"@,
            ),
            (Some(object), Some(key)) if self.value.awaits(object, key) => Some("Reading…"@),
            _ => self.value.refusal,
        }
    }
}

impl ScopeScreen {
    /// The keys of what is under the cursor, one line each, with a mark at
    /// the details cursor.
    #[must_use]
    pub fn key_lines(&self, data: &ScopeData) -> (r: Vec<String>)
        ensures
            texts(r@) == self@.key_lines(*data),
    {
        let keys = self.keys(data);
        let mut out: Vec<String> = Vec::new();
        let mut at: usize = 0;
        while at < keys.len()
            invariant
                at <= keys@.len(),
                pairs(keys@) == self@.lists.keys(self@.kind, *data),
                out@.len() == at,
                forall|k: int| 0 <= k < at ==> (#[trigger] out@[k])@ == self@.key_lines(*data)[k],
            decreases keys@.len() - at,
        {
            let mut line = plus(
                if at == self.key_cursor {
                    "› "
                } else {
                    "  "
                },
                keys[at].0.as_str(),
            );
            line.push_str("  ");
            line.push_str(keys[at].1.as_str());
            proof {
                assert(pairs(keys@)[at as int] == (keys@[at as int].0@, keys@[at as int].1@));
                assert(self@.key_lines(*data)[at as int] == line@);
            }
            out.push(line);
            at = at + 1;
        }
        proof {
            assert(texts(out@) =~= self@.key_lines(*data));
        }
        out
    }

    /// What is said of the value of the key under the details cursor.
    #[must_use]
    pub fn value_line(&self, data: &ScopeData, now: u64) -> (r: Option<String>)
        ensures
            said(r) == self@.value_said(*data, now),
    {
        if let Some(held) = self.revealed_here(data) {
            return Some(held.countdown(now));
        }
        if self.reading_here(data) {
            return Some("Reading…".to_owned());
        }
        match self.refusal() {
            Some(refusal) => Some(refusal.clone()),
            None => None,
        }
    }
}

/// What the details say of a pod's owner: its kind and name, and how many of
/// its replicas are ready once that is known.
pub open spec fn owner_said(pod: Pod, count: Option<Replicas>) -> Option<Seq<char>> {
    match pod.owner {
        Some(owner) => Some(
            owner.0@ + "/"@ + owner.1@ + match count {
                Some(count) => " · "@ + decimal(count.ready as nat) + "/"@ + decimal(
                    count.desired as nat,
                ) + " ready"@,
                None => ""@,
            },
        ),
        None => None,
    }
}

/// What the details say of a pod's owner.
#[must_use]
pub fn owner_line(pod: &Pod, count: Option<Replicas>) -> (r: Option<String>)
    ensures
        said(r) == owner_said(*pod, count),
{
    let owner = match &pod.owner {
        Some(owner) => owner,
        None => return None,
    };
    let mut out = plus(owner.0.as_str(), "/");
    out.push_str(owner.1.as_str());
    let counted = match count {
        Some(count) => {
            let mut said = plus(" · ", number(count.ready as u64).as_str());
            said.push_str("/");
            said.push_str(number(count.desired as u64).as_str());
            said.push_str(" ready");
            said
        },
        None => "".to_owned(),
    };
    out.push_str(counted.as_str());
    Some(out)
}

} // verus!
