//! The columns a list table shows: which ones, in what order, how wide, and
//! what it drops first when the terminal is too narrow for all of them.

use vstd::prelude::*;

use crate::app::cursor::{least, most};
use crate::kube::Kind;
use crate::text::equal;

verus! {

/// The two columns the selection marker (`› `) is always given, whether or
/// not the row under the cursor is on screen.
pub const SELECTION_WIDTH: u16 = 2;

/// The scrollbar's own column, at the right edge of every list table. It is
/// reserved whether or not the list overflows, so a table does not shuffle
/// sideways as rows arrive.
pub const SCROLLBAR_WIDTH: u16 = 1;

/// The blank column between two neighbouring cells.
pub const COLUMN_SPACING: u16 = 1;

/// The fewest cells any column is drawn in. Under three there is no room for
/// a value and the sign that it was cut.
pub const MIN_COLUMN_WIDTH: u16 = 3;

/// The fewest cells a flexible column is squeezed to before the table starts
/// dropping optional columns from the right, unless that column asks for
/// something else.
pub const MIN_FLEXIBLE_WIDTH: u16 = 24;

/// Every column any of the tables offers.
#[derive(Clone, Copy, Debug, Hash, PartialEq, Eq, Structural)]
pub enum ColumnId {
    Vault,
    Name,
    Enabled,
    Expires,
    Type,
    Registry,
    Repository,
    Tags,
    Manifests,
    Tag,
    Digest,
    Updated,
    Created,
    Env,
    Namespace,
    Ready,
    Status,
    Restarts,
    Node,
    Ip,
    Owner,
    Image,
    Age,
    K8sType,
    Reason,
    Object,
    Count,
    Message,
    Keys,
}

/// Which edge of its cell a value is read against.
#[derive(Clone, Copy, Debug, PartialEq, Eq, Structural)]
pub enum Alignment {
    Left,
    Right,
}

/// How much room a column is given.
#[derive(Clone, Copy, Debug, PartialEq, Eq, Structural)]
pub enum Constraint {
    /// Exactly this many cells.
    Length(u16),
    /// A share of whatever is left over.
    Fill(u16),
}

/// What one column is: what the session file calls it, what its header says,
/// and how much room it wants.
#[derive(Clone, Copy, Debug)]
pub struct ColumnSpec {
    /// The identity. It is what the session file records, so it is lowercase
    /// and it does not change between releases: renaming one silently drops
    /// somebody's stored width.
    pub key: &'static str,
    /// What the header cell says.
    pub label: &'static str,
    /// What the column opens at. The flexible column has none and takes
    /// whatever is left over instead.
    pub width: u16,
    /// The fewest cells the column is drawn in: the floor the flexible column
    /// is squeezed to while there is still an optional column to drop, and a
    /// hard floor for everything else.
    pub min: u16,
    /// The one column per table that takes the width left over. Its stored
    /// width is ignored.
    pub flexible: bool,
    /// Numbers read better against the right edge of their cell.
    pub align: Alignment,
    /// Whether the column stays whatever happens: the auto-drop never takes a
    /// pinned column away.
    pub pinned: bool,
}

impl ColumnSpec {
    fn fixed(key: &'static str, label: &'static str, width: u16) -> (r: Self)
        ensures
            r == (ColumnSpec {
                key,
                label,
                width,
                min: MIN_COLUMN_WIDTH,
                flexible: false,
                align: Alignment::Left,
                pinned: false,
            }),
    {
        ColumnSpec {
            key,
            label,
            width,
            min: MIN_COLUMN_WIDTH,
            flexible: false,
            align: Alignment::Left,
            pinned: false,
        }
    }

    /// A count, which is a fixed column read against its right edge.
    fn count(key: &'static str, label: &'static str, width: u16) -> (r: Self)
        ensures
            r == (ColumnSpec {
                key,
                label,
                width,
                min: MIN_COLUMN_WIDTH,
                flexible: false,
                align: Alignment::Right,
                pinned: false,
            }),
    {
        ColumnSpec { align: Alignment::Right, ..ColumnSpec::fixed(key, label, width) }
    }

    /// The column a table is really about, which is always the one that takes
    /// the leftover width and always one it will not drop.
    fn flexible(key: &'static str, label: &'static str, min: u16) -> (r: Self)
        ensures
            r == (ColumnSpec {
                key,
                label,
                width: 0,
                min,
                flexible: true,
                align: Alignment::Left,
                pinned: true,
            }),
    {
        ColumnSpec { width: 0, min, flexible: true, pinned: true, ..ColumnSpec::fixed(key, label, 0) }
    }

    /// A fixed column the table keeps however narrow it gets.
    fn pinned(key: &'static str, label: &'static str, width: u16) -> (r: Self)
        ensures
            r == (ColumnSpec {
                key,
                label,
                width,
                min: MIN_COLUMN_WIDTH,
                flexible: false,
                align: Alignment::Left,
                pinned: true,
            }),
    {
        ColumnSpec { pinned: true, ..ColumnSpec::fixed(key, label, width) }
    }
}

impl ColumnId {
    /// What the session file calls the column.
    pub open spec fn key_text(self) -> Seq<char> {
        match self {
            ColumnId::Vault => "vault"@,
            ColumnId::Name => "name"@,
            ColumnId::Enabled => "enabled"@,
            ColumnId::Expires => "expires"@,
            ColumnId::Type => "type"@,
            ColumnId::Registry => "registry"@,
            ColumnId::Repository => "repository"@,
            ColumnId::Tags => "tag_count"@,
            ColumnId::Manifests => "manifest_count"@,
            ColumnId::Tag => "tag"@,
            ColumnId::Digest => "digest"@,
            ColumnId::Updated => "updated"@,
            ColumnId::Created => "created"@,
            ColumnId::Env => "env"@,
            ColumnId::Namespace => "namespace"@,
            ColumnId::Ready => "ready"@,
            ColumnId::Status => "status"@,
            ColumnId::Restarts => "restarts"@,
            ColumnId::Node => "node"@,
            ColumnId::Ip => "ip"@,
            ColumnId::Owner => "owner"@,
            ColumnId::Image => "image"@,
            ColumnId::Age => "age"@,
            ColumnId::K8sType => "kube_type"@,
            ColumnId::Reason => "reason"@,
            ColumnId::Object => "object"@,
            ColumnId::Count => "count"@,
            ColumnId::Message => "message"@,
            ColumnId::Keys => "keys"@,
        }
    }

    /// What the column's header says.
    pub open spec fn label_text(self) -> Seq<char> {
        match self {
            ColumnId::Vault => "Vault"@,
            ColumnId::Name => "Name"@,
            ColumnId::Enabled => "Enabled"@,
            ColumnId::Expires => "Expires"@,
            ColumnId::Type => "Type"@,
            ColumnId::Registry => "Registry"@,
            ColumnId::Repository => "Repository"@,
            ColumnId::Tags => "Tags"@,
            ColumnId::Manifests => "Manifests"@,
            ColumnId::Tag => "Tag"@,
            ColumnId::Digest => "Digest"@,
            ColumnId::Updated => "Updated"@,
            ColumnId::Created => "Created"@,
            ColumnId::Env => "Env"@,
            ColumnId::Namespace => "Namespace"@,
            ColumnId::Ready => "Ready"@,
            ColumnId::Status => "Status"@,
            ColumnId::Restarts => "Restarts"@,
            ColumnId::Node => "Node"@,
            ColumnId::Ip => "IP"@,
            ColumnId::Owner => "Owner"@,
            ColumnId::Image => "Image"@,
            ColumnId::Age => "Age"@,
            ColumnId::K8sType => "Type"@,
            ColumnId::Reason => "Reason"@,
            ColumnId::Object => "Object"@,
            ColumnId::Count => "Count"@,
            ColumnId::Message => "Message"@,
            ColumnId::Keys => "Keys"@,
        }
    }

    /// What the column opens at.
    pub open spec fn opening_width(self) -> u16 {
        match self {
            ColumnId::Vault => 12,
            ColumnId::Name => 0,
            ColumnId::Enabled => 7,
            ColumnId::Expires => 9,
            ColumnId::Type => 14,
            ColumnId::Registry => 10,
            ColumnId::Repository => 0,
            ColumnId::Tags => 5,
            ColumnId::Manifests => 9,
            ColumnId::Tag => 0,
            ColumnId::Digest => 20,
            ColumnId::Updated => 8,
            ColumnId::Created => 8,
            ColumnId::Env => 6,
            ColumnId::Namespace => 14,
            ColumnId::Ready => 5,
            ColumnId::Status => 18,
            ColumnId::Restarts => 8,
            ColumnId::Node => 20,
            ColumnId::Ip => 15,
            ColumnId::Owner => 20,
            ColumnId::Image => 30,
            ColumnId::Age => 6,
            ColumnId::K8sType => 8,
            ColumnId::Reason => 18,
            ColumnId::Object => 28,
            ColumnId::Count => 5,
            ColumnId::Message => 0,
            ColumnId::Keys => 5,
        }
    }

    /// The fewest cells the column is drawn in.
    pub open spec fn least_width(self) -> u16 {
        match self {
            ColumnId::Name => MIN_FLEXIBLE_WIDTH,
            ColumnId::Repository => 20,
            ColumnId::Tag => 16,
            ColumnId::Message => MIN_FLEXIBLE_WIDTH,
            _ => MIN_COLUMN_WIDTH,
        }
    }

    /// Whether the column takes the width left over.
    pub open spec fn is_flexible(self) -> bool {
        self == ColumnId::Name || self == ColumnId::Repository || self == ColumnId::Tag || self == ColumnId::Message
    }

    /// Whether the table keeps the column however narrow it gets.
    pub open spec fn is_pinned(self) -> bool {
        self.is_flexible() || self == ColumnId::Vault || self == ColumnId::Registry || self == ColumnId::Env
    }

    /// Whether the column is read against its right edge.
    pub open spec fn is_count(self) -> bool {
        self == ColumnId::Tags || self == ColumnId::Manifests || self == ColumnId::Restarts || self == ColumnId::Count || self == ColumnId::Keys
    }

    #[must_use]
    pub fn spec(self) -> (r: ColumnSpec)
        ensures
            r.key@ == self.key_text(),
            r.label@ == self.label_text(),
            r.width == self.opening_width(),
            r.min == self.least_width(),
            r.flexible == self.is_flexible(),
            r.pinned == self.is_pinned(),
            r.align == if self.is_count() {
                Alignment::Right
            } else {
                Alignment::Left
            },
    {
        match self {
            ColumnId::Vault => ColumnSpec::pinned("vault", "Vault", 12),
            ColumnId::Name => ColumnSpec::flexible("name", "Name", MIN_FLEXIBLE_WIDTH),
            ColumnId::Enabled => ColumnSpec::fixed("enabled", "Enabled", 7),
            ColumnId::Expires => ColumnSpec::fixed("expires", "Expires", 9),
            ColumnId::Type => ColumnSpec::fixed("type", "Type", 14),
            ColumnId::Registry => ColumnSpec::pinned("registry", "Registry", 10),
            ColumnId::Repository => ColumnSpec::flexible("repository", "Repository", 20),
            ColumnId::Tags => ColumnSpec::count("tag_count", "Tags", 5),
            ColumnId::Manifests => ColumnSpec::count("manifest_count", "Manifests", 9),
            ColumnId::Tag => ColumnSpec::flexible("tag", "Tag", 16),
            ColumnId::Digest => ColumnSpec::fixed("digest", "Digest", 20),
            ColumnId::Updated => ColumnSpec::fixed("updated", "Updated", 8),
            ColumnId::Created => ColumnSpec::fixed("created", "Created", 8),
            ColumnId::Env => ColumnSpec::pinned("env", "Env", 6),
            ColumnId::Namespace => ColumnSpec::fixed("namespace", "Namespace", 14),
            ColumnId::Ready => ColumnSpec::fixed("ready", "Ready", 5),
            ColumnId::Status => ColumnSpec::fixed("status", "Status", 18),
            ColumnId::Restarts => ColumnSpec::count("restarts", "Restarts", 8),
            ColumnId::Node => ColumnSpec::fixed("node", "Node", 20),
            ColumnId::Ip => ColumnSpec::fixed("ip", "IP", 15),
            ColumnId::Owner => ColumnSpec::fixed("owner", "Owner", 20),
            ColumnId::Image => ColumnSpec::fixed("image", "Image", 30),
            ColumnId::Age => ColumnSpec::fixed("age", "Age", 6),
            ColumnId::K8sType => ColumnSpec::fixed("kube_type", "Type", 8),
            ColumnId::Reason => ColumnSpec::fixed("reason", "Reason", 18),
            ColumnId::Object => ColumnSpec::fixed("object", "Object", 28),
            ColumnId::Count => ColumnSpec::count("count", "Count", 5),
            ColumnId::Message => ColumnSpec::flexible("message", "Message", MIN_FLEXIBLE_WIDTH),
            ColumnId::Keys => ColumnSpec::count("keys", "Keys", 5),
        }
    }

    /// Every column there is, which is what a key out of the session file is
    /// resolved against.
    #[must_use]
    pub fn all() -> (r: Vec<ColumnId>)
        ensures
            forall|id: ColumnId| #[trigger] r@.contains(id),
            r@.no_duplicates(),
    {
        let all = vec![
            ColumnId::Vault,
            ColumnId::Name,
            ColumnId::Enabled,
            ColumnId::Expires,
            ColumnId::Type,
            ColumnId::Registry,
            ColumnId::Repository,
            ColumnId::Tags,
            ColumnId::Manifests,
            ColumnId::Tag,
            ColumnId::Digest,
            ColumnId::Updated,
            ColumnId::Created,
            ColumnId::Env,
            ColumnId::Namespace,
            ColumnId::Ready,
            ColumnId::Status,
            ColumnId::Restarts,
            ColumnId::Node,
            ColumnId::Ip,
            ColumnId::Owner,
            ColumnId::Image,
            ColumnId::Age,
            ColumnId::K8sType,
            ColumnId::Reason,
            ColumnId::Object,
            ColumnId::Count,
            ColumnId::Message,
            ColumnId::Keys,
        ];
        proof {
            assert forall|id: ColumnId| #[trigger] all@.contains(id) by {
                match id {
                    ColumnId::Vault => assert(all@[0] == id),
                    ColumnId::Name => assert(all@[1] == id),
                    ColumnId::Enabled => assert(all@[2] == id),
                    ColumnId::Expires => assert(all@[3] == id),
                    ColumnId::Type => assert(all@[4] == id),
                    ColumnId::Registry => assert(all@[5] == id),
                    ColumnId::Repository => assert(all@[6] == id),
                    ColumnId::Tags => assert(all@[7] == id),
                    ColumnId::Manifests => assert(all@[8] == id),
                    ColumnId::Tag => assert(all@[9] == id),
                    ColumnId::Digest => assert(all@[10] == id),
                    ColumnId::Updated => assert(all@[11] == id),
                    ColumnId::Created => assert(all@[12] == id),
                    ColumnId::Env => assert(all@[13] == id),
                    ColumnId::Namespace => assert(all@[14] == id),
                    ColumnId::Ready => assert(all@[15] == id),
                    ColumnId::Status => assert(all@[16] == id),
                    ColumnId::Restarts => assert(all@[17] == id),
                    ColumnId::Node => assert(all@[18] == id),
                    ColumnId::Ip => assert(all@[19] == id),
                    ColumnId::Owner => assert(all@[20] == id),
                    ColumnId::Image => assert(all@[21] == id),
                    ColumnId::Age => assert(all@[22] == id),
                    ColumnId::K8sType => assert(all@[23] == id),
                    ColumnId::Reason => assert(all@[24] == id),
                    ColumnId::Object => assert(all@[25] == id),
                    ColumnId::Count => assert(all@[26] == id),
                    ColumnId::Message => assert(all@[27] == id),
                    ColumnId::Keys => assert(all@[28] == id),
                }
            }
        }
        all
    }

    #[must_use]
    pub fn key(self) -> (r: &'static str)
        ensures
            r@ == self.key_text(),
    {
        self.spec().key
    }

    #[must_use]
    pub fn label(self) -> (r: &'static str)
        ensures
            r@ == self.label_text(),
    {
        self.spec().label
    }

    /// The column that key names. An unknown key comes out of a session file
    /// written by another build, and is dropped.
    #[must_use]
    pub fn from_key(key: &str) -> (r: Option<Self>)
        ensures
            r == column_named(key@),
            r matches Some(id) ==> id.key_text() == key@,
            r is None ==> forall|id: ColumnId| #[trigger] id.key_text() != key@,
    {
        let all = ColumnId::all();
        let mut i: usize = 0;
        while i < all.len()
            invariant
                i <= all@.len(),
                forall|k: int| 0 <= k < i ==> (#[trigger] all@[k]).key_text() != key@,
            decreases all@.len() - i,
        {
            if equal(all[i].key(), key) {
                proof {
                    law_a_column_is_found_by_its_key(all@[i as int]);
                }
                return Some(all[i]);
            }
            i = i + 1;
        }
        proof {
            assert forall|id: ColumnId| #[trigger] id.key_text() != key@ by {
                assert(all@.contains(id));
            }
        }
        None
    }
}

/// No two columns share a key, so a key names one column at most.
pub proof fn law_a_key_names_one_column(a: ColumnId, b: ColumnId)
    requires
        a.key_text() == b.key_text(),
    ensures
        a == b,
{
    reveal_strlit("vault");
    reveal_strlit("name");
    reveal_strlit("enabled");
    reveal_strlit("expires");
    reveal_strlit("type");
    reveal_strlit("registry");
    reveal_strlit("repository");
    reveal_strlit("tag_count");
    reveal_strlit("manifest_count");
    reveal_strlit("tag");
    reveal_strlit("digest");
    reveal_strlit("updated");
    reveal_strlit("created");
    reveal_strlit("env");
    reveal_strlit("namespace");
    reveal_strlit("ready");
    reveal_strlit("status");
    reveal_strlit("restarts");
    reveal_strlit("node");
    reveal_strlit("ip");
    reveal_strlit("owner");
    reveal_strlit("image");
    reveal_strlit("age");
    reveal_strlit("kube_type");
    reveal_strlit("reason");
    reveal_strlit("object");
    reveal_strlit("count");
    reveal_strlit("message");
    reveal_strlit("keys");
    assert("vault"@[0] == 'v');
    assert("name"@[0] == 'n');
    assert("name"@[1] == 'a');
    assert("enabled"@[0] == 'e');
    assert("enabled"@[1] == 'n');
    assert("expires"@[0] == 'e');
    assert("expires"@[1] == 'x');
    assert("type"@[0] == 't');
    assert("registry"@[0] == 'r');
    assert("registry"@[2] == 'g');
    assert("tag_count"@[0] == 't');
    assert("tag"@[0] == 't');
    assert("digest"@[0] == 'd');
    assert("updated"@[0] == 'u');
    assert("created"@[0] == 'c');
    assert("env"@[0] == 'e');
    assert("namespace"@[0] == 'n');
    assert("ready"@[0] == 'r');
    assert("status"@[0] == 's');
    assert("restarts"@[0] == 'r');
    assert("restarts"@[2] == 's');
    assert("node"@[0] == 'n');
    assert("node"@[1] == 'o');
    assert("owner"@[0] == 'o');
    assert("image"@[0] == 'i');
    assert("age"@[0] == 'a');
    assert("kube_type"@[0] == 'k');
    assert("reason"@[0] == 'r');
    assert("object"@[0] == 'o');
    assert("count"@[0] == 'c');
    assert("message"@[0] == 'm');
    assert("keys"@[0] == 'k');
    let (x, y) = (a.key_text(), b.key_text());
    assert(x.len() == y.len());
    assert(x[0] == y[0]);
    assert(x[1] == y[1]);
    assert(x[2] == y[2]);
}

/// The column a key names.
pub open spec fn column_named(key: Seq<char>) -> Option<ColumnId> {
    if exists|id: ColumnId| #[trigger] id.key_text() == key {
        Some(choose|id: ColumnId| #[trigger] id.key_text() == key)
    } else {
        None
    }
}

/// A column is found again by its own key.
pub proof fn law_a_column_is_found_by_its_key(id: ColumnId)
    ensures
        column_named(id.key_text()) == Some(id),
{
    let found = choose|other: ColumnId| #[trigger] other.key_text() == id.key_text();
    law_a_key_names_one_column(id, found);
}

/// One column as a table currently has it: its identity, plus the two things
/// a user is allowed to change about it and the session file remembers.
#[derive(Clone, Copy, Debug, PartialEq, Eq, Structural)]
pub struct ColumnConfig {
    pub id: ColumnId,
    pub visible: bool,
    pub width: u16,
}

impl ColumnConfig {
    pub open spec fn opening(id: ColumnId, visible: bool) -> Self {
        ColumnConfig { id, visible, width: id.opening_width() }
    }

    #[must_use]
    pub fn shown(id: ColumnId) -> (r: Self)
        ensures
            r == ColumnConfig::opening(id, true),
    {
        ColumnConfig { id, visible: true, width: id.spec().width }
    }

    /// A column the table offers but does not open with: room it would rather
    /// spend on the name until somebody asks for it back.
    #[must_use]
    pub fn hidden(id: ColumnId) -> (r: Self)
        ensures
            r == ColumnConfig::opening(id, false),
    {
        ColumnConfig { visible: false, ..ColumnConfig::shown(id) }
    }
}

pub open spec fn secret_layout() -> Seq<ColumnConfig> {
    seq![
        ColumnConfig::opening(ColumnId::Vault, true),
        ColumnConfig::opening(ColumnId::Name, true),
        ColumnConfig::opening(ColumnId::Enabled, true),
        ColumnConfig::opening(ColumnId::Expires, true),
        ColumnConfig::opening(ColumnId::Updated, true),
        ColumnConfig::opening(ColumnId::Type, false),
        ColumnConfig::opening(ColumnId::Created, false),
    ]
}

/// The Secrets table by vault, in the order it opens with.
#[must_use]
pub fn secret_columns() -> (r: Vec<ColumnConfig>)
    ensures
        r@ == secret_layout(),
{
    let r = vec![
        ColumnConfig::shown(ColumnId::Vault),
        ColumnConfig::shown(ColumnId::Name),
        ColumnConfig::shown(ColumnId::Enabled),
        ColumnConfig::shown(ColumnId::Expires),
        ColumnConfig::shown(ColumnId::Updated),
        ColumnConfig::hidden(ColumnId::Type),
        ColumnConfig::hidden(ColumnId::Created),
    ];
    proof {
        assert(r@ =~= secret_layout());
    }
    r
}

pub open spec fn environment_layout() -> Seq<ColumnConfig> {
    seq![
        ColumnConfig::opening(ColumnId::Env, true),
        ColumnConfig::opening(ColumnId::Vault, false),
        ColumnConfig::opening(ColumnId::Name, true),
        ColumnConfig::opening(ColumnId::Enabled, true),
        ColumnConfig::opening(ColumnId::Expires, true),
        ColumnConfig::opening(ColumnId::Updated, true),
        ColumnConfig::opening(ColumnId::Type, false),
        ColumnConfig::opening(ColumnId::Created, false),
    ]
}

/// The Secrets table by environment, the vault held back behind it.
#[must_use]
pub fn environment_columns() -> (r: Vec<ColumnConfig>)
    ensures
        r@ == environment_layout(),
{
    let r = vec![
        ColumnConfig::shown(ColumnId::Env),
        ColumnConfig::hidden(ColumnId::Vault),
        ColumnConfig::shown(ColumnId::Name),
        ColumnConfig::shown(ColumnId::Enabled),
        ColumnConfig::shown(ColumnId::Expires),
        ColumnConfig::shown(ColumnId::Updated),
        ColumnConfig::hidden(ColumnId::Type),
        ColumnConfig::hidden(ColumnId::Created),
    ];
    proof {
        assert(r@ =~= environment_layout());
    }
    r
}

pub open spec fn repository_layout() -> Seq<ColumnConfig> {
    seq![
        ColumnConfig::opening(ColumnId::Registry, true),
        ColumnConfig::opening(ColumnId::Repository, true),
        ColumnConfig::opening(ColumnId::Tags, true),
        ColumnConfig::opening(ColumnId::Manifests, false),
        ColumnConfig::opening(ColumnId::Updated, true),
        ColumnConfig::opening(ColumnId::Created, false),
    ]
}

/// The Registries table at its first level, one row per repository.
/// Manifests sits where it belongs rather than at the end, so turning it on
/// does not move it: a hidden column still holds its place.
#[must_use]
pub fn repository_columns() -> (r: Vec<ColumnConfig>)
    ensures
        r@ == repository_layout(),
{
    let r = vec![
        ColumnConfig::shown(ColumnId::Registry),
        ColumnConfig::shown(ColumnId::Repository),
        ColumnConfig::shown(ColumnId::Tags),
        ColumnConfig::hidden(ColumnId::Manifests),
        ColumnConfig::shown(ColumnId::Updated),
        ColumnConfig::hidden(ColumnId::Created),
    ];
    proof {
        assert(r@ =~= repository_layout());
    }
    r
}

pub open spec fn tag_layout() -> Seq<ColumnConfig> {
    seq![
        ColumnConfig::opening(ColumnId::Tag, true),
        ColumnConfig::opening(ColumnId::Digest, true),
        ColumnConfig::opening(ColumnId::Created, true),
        ColumnConfig::opening(ColumnId::Updated, true),
    ]
}

/// The Registries table at its second level, one row per tag of the
/// repository the cursor opened.
#[must_use]
pub fn tag_columns() -> (r: Vec<ColumnConfig>)
    ensures
        r@ == tag_layout(),
{
    let r = vec![
        ColumnConfig::shown(ColumnId::Tag),
        ColumnConfig::shown(ColumnId::Digest),
        ColumnConfig::shown(ColumnId::Created),
        ColumnConfig::shown(ColumnId::Updated),
    ];
    proof {
        assert(r@ =~= tag_layout());
    }
    r
}

pub open spec fn pod_layout() -> Seq<ColumnConfig> {
    seq![
        ColumnConfig::opening(ColumnId::Namespace, false),
        ColumnConfig::opening(ColumnId::Name, true),
        ColumnConfig::opening(ColumnId::Ready, true),
        ColumnConfig::opening(ColumnId::Status, true),
        ColumnConfig::opening(ColumnId::Restarts, true),
        ColumnConfig::opening(ColumnId::Age, true),
        ColumnConfig::opening(ColumnId::Node, false),
        ColumnConfig::opening(ColumnId::Ip, false),
        ColumnConfig::opening(ColumnId::Owner, false),
        ColumnConfig::opening(ColumnId::Image, false),
    ]
}

/// The pods of one namespace.
#[must_use]
pub fn pod_columns() -> (r: Vec<ColumnConfig>)
    ensures
        r@ == pod_layout(),
{
    let r = vec![
        ColumnConfig::hidden(ColumnId::Namespace),
        ColumnConfig::shown(ColumnId::Name),
        ColumnConfig::shown(ColumnId::Ready),
        ColumnConfig::shown(ColumnId::Status),
        ColumnConfig::shown(ColumnId::Restarts),
        ColumnConfig::shown(ColumnId::Age),
        ColumnConfig::hidden(ColumnId::Node),
        ColumnConfig::hidden(ColumnId::Ip),
        ColumnConfig::hidden(ColumnId::Owner),
        ColumnConfig::hidden(ColumnId::Image),
    ];
    proof {
        assert(r@ =~= pod_layout());
    }
    r
}

pub open spec fn event_layout() -> Seq<ColumnConfig> {
    seq![
        ColumnConfig::opening(ColumnId::Namespace, false),
        ColumnConfig::opening(ColumnId::Age, true),
        ColumnConfig::opening(ColumnId::K8sType, true),
        ColumnConfig::opening(ColumnId::Reason, true),
        ColumnConfig::opening(ColumnId::Object, true),
        ColumnConfig::opening(ColumnId::Count, true),
        ColumnConfig::opening(ColumnId::Message, true),
    ]
}

/// What has happened in one namespace.
#[must_use]
pub fn event_columns() -> (r: Vec<ColumnConfig>)
    ensures
        r@ == event_layout(),
{
    let r = vec![
        ColumnConfig::hidden(ColumnId::Namespace),
        ColumnConfig::shown(ColumnId::Age),
        ColumnConfig::shown(ColumnId::K8sType),
        ColumnConfig::shown(ColumnId::Reason),
        ColumnConfig::shown(ColumnId::Object),
        ColumnConfig::shown(ColumnId::Count),
        ColumnConfig::shown(ColumnId::Message),
    ];
    proof {
        assert(r@ =~= event_layout());
    }
    r
}

pub open spec fn configmap_layout() -> Seq<ColumnConfig> {
    seq![
        ColumnConfig::opening(ColumnId::Namespace, false),
        ColumnConfig::opening(ColumnId::Name, true),
        ColumnConfig::opening(ColumnId::Keys, true),
        ColumnConfig::opening(ColumnId::Age, true),
    ]
}

/// The configmaps of one namespace.
#[must_use]
pub fn configmap_columns() -> (r: Vec<ColumnConfig>)
    ensures
        r@ == configmap_layout(),
{
    let r = vec![
        ColumnConfig::hidden(ColumnId::Namespace),
        ColumnConfig::shown(ColumnId::Name),
        ColumnConfig::shown(ColumnId::Keys),
        ColumnConfig::shown(ColumnId::Age),
    ];
    proof {
        assert(r@ =~= configmap_layout());
    }
    r
}

pub open spec fn secret_meta_layout() -> Seq<ColumnConfig> {
    seq![
        ColumnConfig::opening(ColumnId::Namespace, false),
        ColumnConfig::opening(ColumnId::Name, true),
        ColumnConfig::opening(ColumnId::K8sType, true),
        ColumnConfig::opening(ColumnId::Keys, true),
        ColumnConfig::opening(ColumnId::Age, true),
    ]
}

/// The secrets of one namespace.
#[must_use]
pub fn secret_meta_columns() -> (r: Vec<ColumnConfig>)
    ensures
        r@ == secret_meta_layout(),
{
    let r = vec![
        ColumnConfig::hidden(ColumnId::Namespace),
        ColumnConfig::shown(ColumnId::Name),
        ColumnConfig::shown(ColumnId::K8sType),
        ColumnConfig::shown(ColumnId::Keys),
        ColumnConfig::shown(ColumnId::Age),
    ];
    proof {
        assert(r@ =~= secret_meta_layout());
    }
    r
}

/// The columns the table of one kind opens with.
pub open spec fn kind_layout(kind: Kind) -> Seq<ColumnConfig> {
    match kind {
        Kind::Pods => pod_layout(),
        Kind::Events => event_layout(),
        Kind::ConfigMaps => configmap_layout(),
        Kind::Secrets => secret_meta_layout(),
    }
}

#[must_use]
pub fn columns_for(kind: Kind) -> (r: Vec<ColumnConfig>)
    ensures
        r@ == kind_layout(kind),
{
    match kind {
        Kind::Pods => pod_columns(),
        Kind::Events => event_columns(),
        Kind::ConfigMaps => configmap_columns(),
        Kind::Secrets => secret_meta_columns(),
    }
}

/// The cells one column cannot do without.
pub open spec fn cells(column: ColumnConfig) -> int {
    if column.id.is_flexible() {
        column.id.least_width() as int
    } else {
        most(column.width as int, column.id.least_width() as int)
    }
}

/// What these columns need to draw with the flexible one still readable:
/// every width, and a gap between each pair.
pub open spec fn needed(columns: Seq<ColumnConfig>) -> int
    decreases columns.len(),
{
    if columns.len() == 0 {
        0
    } else if columns.len() == 1 {
        cells(columns[0])
    } else {
        needed(columns.drop_last()) + COLUMN_SPACING + cells(columns.last())
    }
}

/// The right-most column that can be dropped, or -1 where there is none.
pub open spec fn last_loose(columns: Seq<ColumnConfig>) -> int
    decreases columns.len(),
{
    if columns.len() == 0 {
        -1
    } else if !columns.last().id.is_pinned() {
        columns.len() - 1
    } else {
        last_loose(columns.drop_last())
    }
}

pub proof fn lemma_last_loose(columns: Seq<ColumnConfig>)
    ensures
        -1 <= last_loose(columns) < columns.len(),
        last_loose(columns) >= 0 ==> !columns[last_loose(columns)].id.is_pinned(),
        forall|k: int|
            last_loose(columns) < k < columns.len() ==> (#[trigger] columns[k]).id.is_pinned(),
    decreases columns.len(),
{
    if columns.len() > 0 {
        lemma_last_loose(columns.drop_last());
        assert forall|k: int| last_loose(columns) < k < columns.len() implies (
        #[trigger] columns[k]).id.is_pinned() by {
            if k < columns.len() - 1 {
                assert(columns.drop_last()[k] == columns[k]);
            }
        }
    }
}

/// The columns that are drawn: for as long as they need more than there is,
/// the right-most that can go has gone.
pub open spec fn fitted(columns: Seq<ColumnConfig>, available: u16) -> Seq<ColumnConfig>
    decreases columns.len(),
    via fitted_shrinks
{
    let at = last_loose(columns);
    if least(needed(columns), u16::MAX as int) > available && at >= 0 {
        fitted(columns.remove(at), available)
    } else {
        columns
    }
}

#[via_fn]
proof fn fitted_shrinks(columns: Seq<ColumnConfig>, available: u16) {
    lemma_last_loose(columns);
}

/// The columns that are turned on, in order.
pub open spec fn turned_on(columns: Seq<ColumnConfig>) -> Seq<ColumnConfig> {
    columns.filter(|column: ColumnConfig| column.visible)
}

/// What a table with these columns draws in `available` cells.
pub open spec fn on_screen(columns: Seq<ColumnConfig>, available: u16) -> Seq<ColumnConfig> {
    fitted(turned_on(columns), available)
}

/// Where a column stands among others, or their number where it does not.
pub open spec fn column_at(columns: Seq<ColumnConfig>, id: ColumnId) -> int
    decreases columns.len(),
{
    if columns.len() == 0 || columns[0].id == id {
        0
    } else {
        1 + column_at(columns.skip(1), id)
    }
}

pub proof fn lemma_column_at(columns: Seq<ColumnConfig>, id: ColumnId, i: int)
    requires
        0 <= i <= columns.len(),
        forall|k: int| 0 <= k < i ==> (#[trigger] columns[k]).id != id,
        i < columns.len() ==> columns[i].id == id,
    ensures
        column_at(columns, id) == i,
    decreases i,
{
    if i > 0 {
        assert forall|k: int| 0 <= k < i - 1 implies (#[trigger] columns.skip(1)[k]).id != id by {
            assert(columns.skip(1)[k] == columns[k + 1]);
        }
        lemma_column_at(columns.skip(1), id, i - 1);
    }
}

/// The column a sort moves on to: the next of those on screen, round to the
/// first again.
pub open spec fn sort_after(columns: Seq<ColumnConfig>, sort: ColumnId, available: u16) -> Option<
    ColumnId,
> {
    let shown = on_screen(columns, available);
    let at = column_at(shown, sort);
    if shown.len() == 0 {
        None
    } else if at >= shown.len() {
        Some(shown[0].id)
    } else {
        Some(shown[(at + 1) % (shown.len() as int)].id)
    }
}

/// The columns with one of them turned on or off.
pub open spec fn with_visible(
    columns: Seq<ColumnConfig>,
    id: ColumnId,
    visible: bool,
) -> Seq<ColumnConfig> {
    columns.map_values(
        |column: ColumnConfig|
            if column.id == id {
                ColumnConfig { visible, ..column }
            } else {
                column
            },
    )
}

/// One table's columns as they stand: what it opened with, plus whatever the
/// session file or the user has done to them since.
#[derive(Clone, Debug)]
pub struct TableLayout {
    pub columns: Vec<ColumnConfig>,
}

impl TableLayout {
    /// A table opened at its defaults.
    #[must_use]
    pub fn new(defaults: &[ColumnConfig]) -> (r: Self)
        ensures
            r.columns@ == defaults@,
    {
        let mut columns: Vec<ColumnConfig> = Vec::new();
        let mut i: usize = 0;
        while i < defaults.len()
            invariant
                i <= defaults@.len(),
                columns@ == defaults@.take(i as int),
            decreases defaults@.len() - i,
        {
            columns.push(defaults[i]);
            proof {
                assert(defaults@.take(i + 1) =~= defaults@.take(i as int).push(defaults@[i as int]));
            }
            i = i + 1;
        }
        proof {
            assert(defaults@.take(defaults@.len() as int) =~= defaults@);
        }
        TableLayout { columns }
    }

    /// The width the columns and the gaps between them share, inside a pane
    /// `inner_width` wide: what the selection marker and the scrollbar take is
    /// spent before a column sees any of it.
    #[must_use]
    pub fn available_width(inner_width: u16) -> (r: u16)
        ensures
            r == most(inner_width - SELECTION_WIDTH - SCROLLBAR_WIDTH, 0),
    {
        inner_width.saturating_sub(SELECTION_WIDTH).saturating_sub(SCROLLBAR_WIDTH)
    }

    /// The columns this table draws in `available` cells, dropping the
    /// right-most unpinned one for as long as the flexible column would
    /// otherwise fall under its minimum. A pinned column never goes, so a
    /// table always keeps its identity and its name.
    #[must_use]
    pub fn visible_columns(&self, available: u16) -> (r: Vec<ColumnConfig>)
        ensures
            r@ == on_screen(self.columns@, available),
    {
        let mut columns: Vec<ColumnConfig> = Vec::new();
        let ghost keep = |column: ColumnConfig| column.visible;
        let mut i: usize = 0;
        proof {
            reveal(Seq::filter);
            assert(columns@ =~= self.columns@.take(0).filter(keep));
        }
        while i < self.columns.len()
            invariant
                i <= self.columns@.len(),
                keep == (|column: ColumnConfig| column.visible),
                columns@ == self.columns@.take(i as int).filter(keep),
            decreases self.columns@.len() - i,
        {
            proof {
                reveal(Seq::filter);
                assert(self.columns@.take(i + 1).drop_last() =~= self.columns@.take(i as int));
            }
            if self.columns[i].visible {
                columns.push(self.columns[i]);
            }
            i = i + 1;
        }
        proof {
            assert(self.columns@.take(self.columns@.len() as int) =~= self.columns@);
        }
        while required_width(&columns) > available
            invariant
                fitted(columns@, available) == on_screen(self.columns@, available),
            ensures
                columns@ == on_screen(self.columns@, available),
            decreases columns@.len(),
        {
            let mut at: usize = columns.len();
            while at > 0 && columns[at - 1].id.spec().pinned
                invariant
                    at <= columns@.len(),
                    forall|k: int| at <= k < columns@.len() ==> (#[trigger] columns@[k]).id.is_pinned(),
                decreases at,
            {
                at = at - 1;
            }
            proof {
                lemma_last_loose(columns@);
            }
            if at == 0 {
                break;
            }
            proof {
                assert(!columns@[at - 1].id.is_pinned());
                assert(last_loose(columns@) == at - 1);
            }
            columns.remove(at - 1);
        }
        columns
    }

    /// The next column on screen after `sort`, round to the first again.
    #[must_use]
    pub fn next_sort(&self, sort: ColumnId, available: u16) -> (r: Option<ColumnId>)
        ensures
            r == sort_after(self.columns@, sort, available),
    {
        let shown = self.visible_columns(available);
        if shown.len() == 0 {
            return None;
        }
        let mut at: usize = 0;
        while at < shown.len() && shown[at].id != sort
            invariant
                at <= shown@.len(),
                forall|k: int| 0 <= k < at ==> (#[trigger] shown@[k]).id != sort,
            decreases shown@.len() - at,
        {
            at = at + 1;
        }
        proof {
            lemma_column_at(shown@, sort, at as int);
        }
        if at == shown.len() {
            Some(shown[0].id)
        } else {
            Some(shown[(at + 1) % shown.len()].id)
        }
    }

    /// Where a column stands, or how many there are where it is not among
    /// them.
    #[must_use]
    pub fn position(&self, id: ColumnId) -> (r: usize)
        ensures
            r == column_at(self.columns@, id),
            r <= self.columns@.len(),
    {
        let mut i: usize = 0;
        while i < self.columns.len() && self.columns[i].id != id
            invariant
                i <= self.columns@.len(),
                forall|k: int| 0 <= k < i ==> (#[trigger] self.columns@[k]).id != id,
            decreases self.columns@.len() - i,
        {
            i = i + 1;
        }
        proof {
            lemma_column_at(self.columns@, id, i as int);
        }
        i
    }

    /// Turns one column on or off.
    pub fn set_visible(&mut self, id: ColumnId, visible: bool)
        ensures
            final(self).columns@ == with_visible(old(self).columns@, id, visible),
    {
        let ghost was = self.columns@;
        let mut i: usize = 0;
        while i < self.columns.len()
            invariant
                i <= self.columns@.len(),
                self.columns@.len() == was.len(),
                forall|k: int|
                    0 <= k < i ==> self.columns@[k] == with_visible(was, id, visible)[k],
                forall|k: int| i <= k < was.len() ==> self.columns@[k] == was[k],
            decreases self.columns@.len() - i,
        {
            if self.columns[i].id == id {
                let column = self.columns[i];
                self.columns[i] = ColumnConfig { visible, ..column };
            }
            i = i + 1;
        }
        proof {
            assert(self.columns@ =~= with_visible(was, id, visible));
        }
    }

    #[must_use]
    pub fn constraint(column: ColumnConfig) -> (r: Constraint)
        ensures
            r == if column.id.is_flexible() || column.width == 0 {
                Constraint::Fill(1)
            } else {
                Constraint::Length(column.width)
            },
    {
        if column.id.spec().flexible || column.width == 0 {
            Constraint::Fill(1)
        } else {
            Constraint::Length(column.width)
        }
    }
}

/// What these columns need, or the most a terminal can have where they need
/// more.
fn required_width(columns: &Vec<ColumnConfig>) -> (r: u16)
    ensures
        r == least(needed(columns@), u16::MAX as int),
{
    let mut width: u16 = 0;
    let mut i: usize = 0;
    while i < columns.len()
        invariant
            i <= columns@.len(),
            needed(columns@.take(i as int)) >= 0,
            width == least(needed(columns@.take(i as int)), u16::MAX as int),
        decreases columns@.len() - i,
    {
        let column = columns[i];
        let about = column.id.spec();
        let own: u16 = if about.flexible || column.width < about.min {
            about.min
        } else {
            column.width
        };
        proof {
            assert(columns@.take(i + 1).drop_last() =~= columns@.take(i as int));
            assert(columns@.take(i + 1).last() == column);
            assert(own == cells(column));
        }
        if i > 0 {
            width = width.saturating_add(COLUMN_SPACING);
        }
        width = width.saturating_add(own);
        i = i + 1;
    }
    proof {
        assert(columns@.take(columns@.len() as int) =~= columns@);
    }
    width
}

/// Whether each of `some` stands in `all`, in the same order.
pub open spec fn in_the_order_of(some: Seq<ColumnConfig>, all: Seq<ColumnConfig>) -> bool
    decreases all.len(),
{
    if some.len() == 0 {
        true
    } else if all.len() == 0 {
        false
    } else if some.last() == all.last() {
        in_the_order_of(some.drop_last(), all.drop_last())
    } else {
        in_the_order_of(some, all.drop_last())
    }
}

/// The columns drawn either fit or cannot be dropped any further.
pub proof fn law_the_columns_fit_or_are_all_pinned(columns: Seq<ColumnConfig>, available: u16)
    ensures
        ({
            let drawn = fitted(columns, available);
            ||| least(needed(drawn), u16::MAX as int) <= available
            ||| forall|k: int| 0 <= k < drawn.len() ==> (#[trigger] drawn[k]).id.is_pinned()
        }),
    decreases columns.len(),
{
    lemma_last_loose(columns);
    let at = last_loose(columns);
    if least(needed(columns), u16::MAX as int) > available && at >= 0 {
        law_the_columns_fit_or_are_all_pinned(columns.remove(at), available);
    }
}

/// However narrow the table, the pinned columns that are turned on stay, in
/// their order.
pub proof fn law_a_pinned_column_stays(columns: Seq<ColumnConfig>, available: u16)
    ensures
        fitted(columns, available).filter(|column: ColumnConfig| column.id.is_pinned())
            == columns.filter(|column: ColumnConfig| column.id.is_pinned()),
    decreases columns.len(),
{
    lemma_last_loose(columns);
    let at = last_loose(columns);
    let keep = |column: ColumnConfig| column.id.is_pinned();
    if least(needed(columns), u16::MAX as int) > available && at >= 0 {
        law_a_pinned_column_stays(columns.remove(at), available);
        lemma_filter_without(columns, at, keep);
    }
}

proof fn lemma_filter_without(
    columns: Seq<ColumnConfig>,
    at: int,
    keep: spec_fn(ColumnConfig) -> bool,
)
    requires
        0 <= at < columns.len(),
        !keep(columns[at]),
    ensures
        columns.remove(at).filter(keep) == columns.filter(keep),
    decreases columns.len(),
{
    reveal(Seq::filter);
    if at == columns.len() - 1 {
        assert(columns.remove(at) =~= columns.drop_last());
    } else {
        lemma_filter_without(columns.drop_last(), at, keep);
        assert(columns.remove(at).drop_last() =~= columns.drop_last().remove(at));
        assert(columns.remove(at).last() == columns.last());
    }
}

proof fn lemma_shorter(some: Seq<ColumnConfig>, all: Seq<ColumnConfig>)
    requires
        some.len() > 0,
        in_the_order_of(some, all),
    ensures
        in_the_order_of(some.drop_last(), all),
    decreases all.len(),
{
    let less = some.drop_last();
    if less.len() > 0 {
        if some.last() == all.last() {
            if less.last() == all.last() {
                lemma_shorter(less, all.drop_last());
            }
        } else {
            lemma_shorter(some, all.drop_last());
            if less.last() == all.last() {
                lemma_shorter(less, all.drop_last());
            }
        }
    }
}

proof fn lemma_in_a_longer_list(some: Seq<ColumnConfig>, all: Seq<ColumnConfig>, at: int)
    requires
        0 <= at < all.len(),
        in_the_order_of(some, all.remove(at)),
    ensures
        in_the_order_of(some, all),
    decreases all.len(),
{
    if some.len() > 0 {
        if at == all.len() - 1 {
            assert(all.remove(at) =~= all.drop_last());
            if some.last() == all.last() {
                lemma_shorter(some, all.drop_last());
            }
        } else {
            assert(all.remove(at).drop_last() =~= all.drop_last().remove(at));
            assert(all.remove(at).last() == all.last());
            if some.last() == all.last() {
                lemma_in_a_longer_list(some.drop_last(), all.drop_last(), at);
            } else {
                lemma_in_a_longer_list(some, all.drop_last(), at);
            }
        }
    }
}

proof fn lemma_in_its_own_order(columns: Seq<ColumnConfig>)
    ensures
        in_the_order_of(columns, columns),
    decreases columns.len(),
{
    if columns.len() > 0 {
        lemma_in_its_own_order(columns.drop_last());
    }
}

/// Whatever is dropped, the columns that are left keep their order.
pub proof fn law_the_columns_keep_their_order(columns: Seq<ColumnConfig>, available: u16)
    ensures
        in_the_order_of(fitted(columns, available), columns),
    decreases columns.len(),
{
    lemma_last_loose(columns);
    let at = last_loose(columns);
    if least(needed(columns), u16::MAX as int) > available && at >= 0 {
        law_the_columns_keep_their_order(columns.remove(at), available);
        lemma_in_a_longer_list(fitted(columns, available), columns, at);
    } else {
        lemma_in_its_own_order(columns);
    }
}

/// A table wide enough for every column that is turned on drops none.
pub proof fn law_a_wide_table_drops_nothing(columns: Seq<ColumnConfig>, available: u16)
    requires
        needed(turned_on(columns)) <= available,
    ensures
        on_screen(columns, available) == turned_on(columns),
{
}

} // verus!
