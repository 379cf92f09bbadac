//! Every key, in one table, which is what `?` renders.

use vstd::prelude::*;

verus! {

/// Which kind of tab a key belongs to — not a tab index. Every AKS
/// namespace tab is one section; Secrets and Registries are one each.
#[derive(Clone, Copy, Debug, PartialEq, Eq, Structural)]
pub enum Section {
    Aks,
    Secrets,
    Registries,
}

/// One row of the help modal, and one case of the dispatch.
#[derive(Clone, Copy, Debug)]
pub struct Key {
    /// As the help prints it.
    pub keys: &'static str,
    pub does: &'static str,
    /// The section this key belongs to, or `None` when every tab has it.
    pub tab: Option<Section>,
}

/// What a row of the help says.
pub struct KeyView {
    pub keys: Seq<char>,
    pub does: Seq<char>,
    pub tab: Option<Section>,
}

impl View for Key {
    type V = KeyView;

    open spec fn view(&self) -> KeyView {
        KeyView { keys: self.keys@, does: self.does@, tab: self.tab }
    }
}

/// What a list of rows says.
pub open spec fn key_views(rows: Seq<Key>) -> Seq<KeyView> {
    rows.map_values(|row: Key| row@)
}

/// Every row of the help.
pub open spec fn key_table() -> Seq<KeyView> {
    seq![
        KeyView { keys: "1-9  [ ] ← →"@, does: "a tab by number; the previous, the next"@, tab: None },
        KeyView { keys: "j k  ↑ ↓"@, does: "move the cursor in the focused pane"@, tab: None },
        KeyView { keys: "PgUp PgDn"@, does: "a screenful at a time; Home and End the ends"@, tab: None },
        KeyView { keys: "Tab"@, does: "focus the table, the details, or the text pane under them"@, tab: None },
        KeyView { keys: "/"@, does: "search; Esc or Enter keeps the filter, Esc again clears it; in a text pane, filters its lines"@, tab: None },
        KeyView { keys: "Ctrl-U"@, does: "clear the search box"@, tab: None },
        KeyView { keys: "S  R"@, does: "sort by the next column; reverse the direction. A header click sorts too"@, tab: None },
        KeyView { keys: "r"@, does: "refresh now: this namespace, or every vault and registry"@, tab: None },
        KeyView { keys: "Esc"@, does: "back out one step: the modal, the pane filter, the query, then the open pane or repository"@, tab: None },
        KeyView { keys: "?"@, does: "this help"@, tab: None },
        KeyView { keys: "q  Ctrl-C"@, does: "quit"@, tab: None },
        KeyView { keys: "p e m s"@, does: "Pods, Events, ConfigMaps, Secrets; e on a pod is that pod's events"@, tab: Some(Section::Aks) },
        KeyView { keys: "Enter  l"@, does: "pods: the log, following, in the text pane; again closes it. Events: the pod. ConfigMaps and Secrets: the key's value"@, tab: Some(Section::Aks) },
        KeyView { keys: "d  v"@, does: "describe / YAML of what is under the cursor; v on a configmap or secret is the key's value"@, tab: Some(Section::Aks) },
        KeyView { keys: "P  C"@, does: "the log before the last restart; the pod's next container"@, tab: Some(Section::Aks) },
        KeyView { keys: "End  z"@, does: "follow the log again; the text pane alone, and back"@, tab: Some(Section::Aks) },
        KeyView { keys: "b"@, does: "a shell in the pod: bash, or sh when there is none"@, tab: Some(Section::Aks) },
        KeyView { keys: "x  X"@, does: "restart the pod (delete it; its owner replaces it) / rollout-restart its owner"@, tab: Some(Section::Aks) },
        KeyView { keys: "="@, does: "scale the pod's deployment or statefulset"@, tab: Some(Section::Aks) },
        KeyView { keys: "y  Y"@, does: "copy the name — on a configmap or secret, the key's value, unseen; copy the kubectl line for what the pane shows"@, tab: Some(Section::Aks) },
        KeyView { keys: "Enter  v"@, does: "show the value for 60 seconds; again hides it"@, tab: Some(Section::Secrets) },
        KeyView { keys: "y"@, does: "copy the value without showing it"@, tab: Some(Section::Secrets) },
        KeyView { keys: "Y"@, does: "copy the secret's name"@, tab: Some(Section::Secrets) },
        KeyView { keys: "o"@, does: "open the vault in the Azure portal"@, tab: Some(Section::Secrets) },
        KeyView { keys: "Enter"@, does: "open the repository's tags"@, tab: Some(Section::Registries) },
        KeyView { keys: "h  Bksp"@, does: "back to the repositories"@, tab: Some(Section::Registries) },
        KeyView { keys: "y"@, does: "copy the pull reference"@, tab: Some(Section::Registries) },
        KeyView { keys: "Y"@, does: "copy the digest reference (inside a repository)"@, tab: Some(Section::Registries) },
        KeyView { keys: "o"@, does: "open the registry in the Azure portal"@, tab: Some(Section::Registries) },
    ]
}

/// Every key there is, shared ones first.
#[must_use]
pub fn all_keys() -> (r: Vec<Key>)
    ensures
        key_views(r@) == key_table(),
{
    let r = vec![
        Key { keys: "1-9  [ ] ← →", does: "a tab by number; the previous, the next", tab: None },
        Key { keys: "j k  ↑ ↓", does: "move the cursor in the focused pane", tab: None },
        Key { keys: "PgUp PgDn", does: "a screenful at a time; Home and End the ends", tab: None },
        Key { keys: "Tab", does: "focus the table, the details, or the text pane under them", tab: None },
        Key { keys: "/", does: "search; Esc or Enter keeps the filter, Esc again clears it; in a text pane, filters its lines", tab: None },
        Key { keys: "Ctrl-U", does: "clear the search box", tab: None },
        Key { keys: "S  R", does: "sort by the next column; reverse the direction. A header click sorts too", tab: None },
        Key { keys: "r", does: "refresh now: this namespace, or every vault and registry", tab: None },
        Key { keys: "Esc", does: "back out one step: the modal, the pane filter, the query, then the open pane or repository", tab: None },
        Key { keys: "?", does: "this help", tab: None },
        Key { keys: "q  Ctrl-C", does: "quit", tab: None },
        Key { keys: "p e m s", does: "Pods, Events, ConfigMaps, Secrets; e on a pod is that pod's events", tab: Some(Section::Aks) },
        Key { keys: "Enter  l", does: "pods: the log, following, in the text pane; again closes it. Events: the pod. ConfigMaps and Secrets: the key's value", tab: Some(Section::Aks) },
        Key { keys: "d  v", does: "describe / YAML of what is under the cursor; v on a configmap or secret is the key's value", tab: Some(Section::Aks) },
        Key { keys: "P  C", does: "the log before the last restart; the pod's next container", tab: Some(Section::Aks) },
        Key { keys: "End  z", does: "follow the log again; the text pane alone, and back", tab: Some(Section::Aks) },
        Key { keys: "b", does: "a shell in the pod: bash, or sh when there is none", tab: Some(Section::Aks) },
        Key { keys: "x  X", does: "restart the pod (delete it; its owner replaces it) / rollout-restart its owner", tab: Some(Section::Aks) },
        Key { keys: "=", does: "scale the pod's deployment or statefulset", tab: Some(Section::Aks) },
        Key { keys: "y  Y", does: "copy the name — on a configmap or secret, the key's value, unseen; copy the kubectl line for what the pane shows", tab: Some(Section::Aks) },
        Key { keys: "Enter  v", does: "show the value for 60 seconds; again hides it", tab: Some(Section::Secrets) },
        Key { keys: "y", does: "copy the value without showing it", tab: Some(Section::Secrets) },
        Key { keys: "Y", does: "copy the secret's name", tab: Some(Section::Secrets) },
        Key { keys: "o", does: "open the vault in the Azure portal", tab: Some(Section::Secrets) },
        Key { keys: "Enter", does: "open the repository's tags", tab: Some(Section::Registries) },
        Key { keys: "h  Bksp", does: "back to the repositories", tab: Some(Section::Registries) },
        Key { keys: "y", does: "copy the pull reference", tab: Some(Section::Registries) },
        Key { keys: "Y", does: "copy the digest reference (inside a repository)", tab: Some(Section::Registries) },
        Key { keys: "o", does: "open the registry in the Azure portal", tab: Some(Section::Registries) },
    ];
    proof {
        assert(key_views(r@) =~= key_table());
    }
    r
}

/// Whether a row is worth showing in a section: shared, or its own.
pub open spec fn belongs(row: KeyView, section: Section) -> bool {
    row.tab is None || row.tab == Some(section)
}

/// The keys worth showing in this section: the shared ones and its own.
#[must_use]
pub fn for_section(section: Section) -> (r: Vec<Key>)
    ensures
        key_views(r@) == key_table().filter(|row: KeyView| belongs(row, section)),
{
    let all = all_keys();
    let ghost keep = |row: KeyView| belongs(row, section);
    let ghost said = key_views(all@);
    let mut out: Vec<Key> = Vec::new();
    let mut i: usize = 0;
    proof {
        reveal(Seq::filter);
        assert(key_views(out@) =~= said.take(0).filter(keep));
    }
    while i < all.len()
        invariant
            i <= all@.len(),
            said == key_views(all@),
            keep == (|row: KeyView| belongs(row, section)),
            key_views(out@) == said.take(i as int).filter(keep),
        decreases all@.len() - i,
    {
        let ghost before = key_views(out@);
        proof {
            reveal(Seq::filter);
            assert(said.take(i + 1).drop_last() =~= said.take(i as int));
            assert(said.take(i + 1).last() == all@[i as int]@);
        }
        let shown = match all[i].tab {
            None => true,
            Some(held) => held == section,
        };
        if shown {
            out.push(all[i]);
            proof {
                assert(key_views(out@) =~= before.push(all@[i as int]@));
            }
        }
        i = i + 1;
    }
    proof {
        assert(said.take(said.len() as int) =~= said);
    }
    out
}

} // verus!
