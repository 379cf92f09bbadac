//! The Secrets tab: every secret in every vault as one flat table.
//!
//! The point of the tab is the question "what is `db-password` in each
//! environment?", so the default sort is by name with the vault as the
//! tiebreak — dev, qa and prod end up adjacent — and the vault tiebreak
//! follows the inventory's order rather than the alphabet, because that is
//! the order the configuration named them in.

use std::cmp::Ordering;
use vstd::prelude::*;

use super::cursor::{most, ListCursor, ScrollState};
use super::list::{border, border_text};
use super::listing::{OrderKey, Rows, RowsView, Searchable};
use super::screen::{ActionView, AppAction, Target};
use super::shell::{Focus, Shell, ShellView};
use crate::azure::{portal_text, portal_url, Secret, SecretRow, SecretRowView, Vault};
use crate::columns::{
    environment_columns, environment_layout, on_screen, secret_columns, secret_layout, sort_after,
    ColumnConfig, ColumnId, TableLayout,
};
use crate::filter::{
    boolean, boolean_of, contains, keys_of, mentions, pairs, tag_matches, tagged, Env, Query, When,
};
use crate::input::{InputView, KeyCode, KeyEvent, TextInput};
use crate::kube::said;
use crate::order::{
    compare_names, compare_optional, compare_stamps, flip, lemma_order_by_cell_total,
    lemma_total_by, lemma_total_then, order_by_cell, picked_in_order, sort_picks, then_order,
    then_with, Arrangement, Cell,
};
use crate::store::AzureStore;
use crate::text::{decimal, equal, lines_of, number, usize_of};
use crate::timestamp::{age_text, seconds_between, stamp_number, Timestamp};
use crate::worker::{Request, RequestView};

verus! {

/// Inside this many days, an expiry is worth a colour and a badge.
pub const EXPIRING_SOON: i64 = 30;

/// How long a revealed value stays on screen, in milliseconds. Long enough to
/// read one off and type it somewhere, short enough that a walked-away-from
/// terminal is not showing a production password.
pub const REVEAL_FOR: u64 = 60_000;

/// How long the cursor has to sit on a row before its versions are asked
/// for, in milliseconds. Holding `j` down across four hundred rows must not
/// be four hundred requests.
pub const REST: u64 = 150;

/// The milliseconds from one moment of the run to another, none where the
/// second is not after the first.
pub open spec fn elapsed(since: u64, now: u64) -> int {
    most(now - since, 0)
}

pub fn millis_since(since: u64, now: u64) -> (r: u64)
    ensures
        r == elapsed(since, now),
{
    now.saturating_sub(since)
}

/// The `key:` filters this tab knows.
pub open spec fn known_keys() -> Seq<Seq<char>> {
    seq![
        "env"@,
        "vault"@,
        "name"@,
        "type"@,
        "enabled"@,
        "managed"@,
        "expires"@,
        "tag"@,
    ]
}

/// The `key:` filters this tab knows. Everything else typed is a word.
#[must_use]
pub fn schema() -> (r: Vec<&'static str>)
    ensures
        keys_of(r@) == known_keys(),
{
    let r = vec!["env", "vault", "name", "type", "enabled", "managed", "expires", "tag"];
    proof {
        assert(keys_of(r@) =~= known_keys());
    }
    r
}

/// Tags, each as ` key=value`.
pub open spec fn tags_said(tags: Seq<(Seq<char>, Seq<char>)>) -> Seq<char>
    decreases tags.len(),
{
    if tags.len() == 0 {
        Seq::empty()
    } else {
        tags_said(tags.drop_last()) + " "@ + tags.last().0 + "="@ + tags.last().1
    }
}

/// Every cell of a row that a person might type part of.
pub open spec fn searched(row: SecretRowView) -> Seq<char> {
    let kind = match row.content_type {
        Some(kind) => " "@ + kind,
        None => Seq::<char>::empty(),
    };
    row.vault + " "@ + row.name + kind + tags_said(row.tags)
}

/// What a row looks like to the search: every cell a person might type part
/// of, joined once per store change rather than per keystroke.
#[must_use]
pub fn haystack(row: &SecretRow) -> (r: String)
    ensures
        r@ == searched(row@),
{
    let ghost tags = pairs(row.tags@);
    let mut text = row.vault.clone();
    text.push_str(" ");
    text.push_str(row.name.as_str());
    let ghost base = text@;
    if let Some(content_type) = &row.content_type {
        text.push_str(" ");
        text.push_str(content_type.as_str());
        proof {
            assert(text@ =~= base + (" "@ + content_type@));
        }
    } else {
        proof {
            assert(text@ =~= base + Seq::<char>::empty());
        }
    }
    let ghost head = text@;
    let mut i: usize = 0;
    proof {
        assert(head + tags_said(tags.take(0)) =~= head);
    }
    while i < row.tags.len()
        invariant
            i <= row.tags@.len(),
            tags == pairs(row.tags@),
            text@ == head + tags_said(tags.take(i as int)),
        decreases row.tags@.len() - i,
    {
        proof {
            assert(tags.take(i + 1).drop_last() =~= tags.take(i as int));
            assert(tags.take(i + 1).last() == (row.tags@[i as int].0@, row.tags@[i as int].1@));
        }
        text.push_str(" ");
        text.push_str(row.tags[i].0.as_str());
        text.push_str("=");
        text.push_str(row.tags[i].1.as_str());
        proof {
            assert(text@ =~= head + tags_said(tags.take(i + 1)));
        }
        i = i + 1;
    }
    proof {
        assert(tags.take(i as int) =~= tags);
    }
    text
}

/// Whether a row answers one `key:value`. A value that says nothing yet — a
/// half-typed environment, a word that is neither a yes nor a no — leaves
/// every row.
pub open spec fn answers(row: SecretRowView, key: Seq<char>, value: Seq<char>, now: Timestamp) -> bool {
    if key == "env"@ {
        match Env::named_in(value) {
            Some(want) => Env::named_in(row.vault) == Some(want),
            None => true,
        }
    } else if key == "vault"@ {
        mentions(row.vault, value)
    } else if key == "name"@ {
        mentions(row.name, value)
    } else if key == "type"@ {
        row.content_type matches Some(held) && mentions(held, value)
    } else if key == "enabled"@ {
        match boolean_of(value) {
            Some(want) => row.enabled == want,
            None => true,
        }
    } else if key == "managed"@ {
        match boolean_of(value) {
            Some(want) => row.managed == want,
            None => true,
        }
    } else if key == "expires"@ {
        match When::of(value) {
            Some(when) => when.reached(row.expires, now),
            None => true,
        }
    } else if key == "tag"@ {
        tagged(row.tags, value)
    } else {
        true
    }
}

/// Whether a row answers every `key:value`.
pub open spec fn answers_all(
    row: SecretRowView,
    fields: Seq<(Seq<char>, Seq<char>)>,
    now: Timestamp,
) -> bool {
    forall|i: int|
        0 <= i < fields.len() ==> answers(row, (#[trigger] fields[i]).0, fields[i].1, now)
}

fn answers_field(row: &SecretRow, key: &str, value: &str, now: Timestamp) -> (r: bool)
    ensures
        r == answers(row@, key@, value@, now),
{
    if equal(key, "env") {
        match Env::of(value) {
            Some(want) => match Env::of(row.vault.as_str()) {
                Some(held) => held == want,
                None => false,
            },
            None => true,
        }
    } else if equal(key, "vault") {
        contains(row.vault.as_str(), value)
    } else if equal(key, "name") {
        contains(row.name.as_str(), value)
    } else if equal(key, "type") {
        match &row.content_type {
            Some(held) => contains(held.as_str(), value),
            None => false,
        }
    } else if equal(key, "enabled") {
        match boolean(value) {
            Some(want) => row.enabled == want,
            None => true,
        }
    } else if equal(key, "managed") {
        match boolean(value) {
            Some(want) => row.managed == want,
            None => true,
        }
    } else if equal(key, "expires") {
        match When::parse(value) {
            Some(when) => when.holds(row.expires, now),
            None => true,
        }
    } else if equal(key, "tag") {
        tag_matches(&row.tags, value)
    } else {
        true
    }
}

/// Whether one row answers every `key:value` in the query. The words are the
/// search's job; this is only the fields.
#[must_use]
pub fn passes(row: &SecretRow, query: &Query, now: Timestamp) -> (r: bool)
    ensures
        r == answers_all(row@, query@.fields, now),
{
    let mut i: usize = 0;
    while i < query.fields.len()
        invariant
            i <= query.fields@.len(),
            forall|k: int|
                0 <= k < i ==> answers(
                    row@,
                    (#[trigger] query@.fields[k]).0,
                    query@.fields[k].1,
                    now,
                ),
        decreases query.fields@.len() - i,
    {
        let field = &query.fields[i];
        if !answers_field(row, field.0.as_str(), field.1.as_str(), now) {
            proof {
                assert(!answers(
                    row@,
                    query@.fields[i as int].0,
                    query@.fields[i as int].1,
                    now,
                ));
            }
            return false;
        }
        i = i + 1;
    }
    true
}

// ---------------------------------------------------------------------------
// Expiries
// ---------------------------------------------------------------------------

/// How an expiry reads in its cell, and whether it is worth a colour.
#[derive(Clone, Copy, Debug, PartialEq, Eq, Structural)]
pub enum Expiry {
    /// No expiry set. The common case, and not a problem.
    Unset,
    /// Already past.
    Expired,
    /// Inside [`EXPIRING_SOON`] days.
    Soon,
    /// Further off than that.
    Later,
}

impl Expiry {
    /// The four ways a stamp can read: none, past, within the window, beyond
    /// it. The window ends with the last second of its last day.
    pub open spec fn reads(expires: Option<Timestamp>, now: Timestamp) -> Expiry {
        match expires {
            None => Expiry::Unset,
            Some(expires) => if seconds_between(now, expires) < 0 {
                Expiry::Expired
            } else if seconds_between(now, expires) < (EXPIRING_SOON + 1) * 86_400 {
                Expiry::Soon
            } else {
                Expiry::Later
            },
        }
    }

    #[must_use]
    pub fn of(expires: Option<Timestamp>, now: Timestamp) -> (r: Self)
        ensures
            r == Expiry::reads(expires, now),
    {
        match expires {
            None => Expiry::Unset,
            Some(expires) => {
                let seconds: i64 = now.seconds_until(expires);
                if seconds < 0 {
                    Expiry::Expired
                } else if seconds / 86_400 <= EXPIRING_SOON {
                    Expiry::Soon
                } else {
                    Expiry::Later
                }
            },
        }
    }

    pub open spec fn cell_text(self, expires: Option<Timestamp>, now: Timestamp) -> Seq<char> {
        let age = match expires {
            Some(expires) => age_text(seconds_between(now, expires)),
            None => Seq::<char>::empty(),
        };
        match self {
            Expiry::Unset => "—"@,
            Expiry::Expired => "expired"@,
            Expiry::Soon => age + " ⚠"@,
            Expiry::Later => age,
        }
    }

    /// What the Expires cell says. An expiry inside the window carries its
    /// own mark as well as its colour, so it still reads under `NO_COLOR`.
    #[must_use]
    pub fn cell(self, expires: Option<Timestamp>, now: Timestamp) -> (r: String)
        ensures
            r@ == self.cell_text(expires, now),
    {
        let mut age = match expires {
            Some(expires) => expires.relative_age(now),
            None => String::new(),
        };
        match self {
            Expiry::Unset => "—".to_owned(),
            Expiry::Expired => "expired".to_owned(),
            Expiry::Soon => {
                age.push_str(" ⚠");
                age
            },
            Expiry::Later => age,
        }
    }
}

/// Whether a row counts on the tab's badge: enabled, and expired or about to.
pub open spec fn running_out(row: SecretRow, now: Timestamp) -> bool {
    let reads = Expiry::reads(row.expires, now);
    row.enabled && (reads == Expiry::Expired || reads == Expiry::Soon)
}

/// How many rows count on the tab's badge.
pub open spec fn running_out_count(rows: Seq<SecretRow>, now: Timestamp) -> int {
    rows.filter(|row: SecretRow| running_out(row, now)).len() as int
}

/// How many enabled secrets are expiring or already expired — the number on
/// the tab's badge. A disabled secret's expiry is nobody's problem.
#[must_use]
pub fn expiring(rows: &Vec<SecretRow>, now: Timestamp) -> (r: usize)
    ensures
        r == running_out_count(rows@, now),
{
    let ghost keep = |row: SecretRow| running_out(row, now);
    let mut count: usize = 0;
    let mut i: usize = 0;
    proof {
        reveal(Seq::filter);
    }
    while i < rows.len()
        invariant
            i <= rows@.len(),
            count <= i,
            keep == (|row: SecretRow| running_out(row, now)),
            count == rows@.take(i as int).filter(keep).len(),
        decreases rows@.len() - i,
    {
        proof {
            reveal(Seq::filter);
            assert(rows@.take(i + 1).drop_last() =~= rows@.take(i as int));
        }
        let row = &rows[i];
        let reads = Expiry::of(row.expires, now);
        if row.enabled && (reads == Expiry::Expired || reads == Expiry::Soon) {
            count = count + 1;
        }
        i = i + 1;
    }
    proof {
        assert(rows@.take(i as int) =~= rows@);
    }
    count
}

/// A disabled secret never counts on the badge, nor does one that is not set
/// to expire.
pub proof fn law_a_disabled_secret_is_nobodys_problem(row: SecretRow, now: Timestamp)
    requires
        !row.enabled || row.expires is None,
    ensures
        !running_out(row, now),
{
}

// ---------------------------------------------------------------------------
// Sorting
// ---------------------------------------------------------------------------

/// The ids of some columns, in order.
pub open spec fn ids(columns: Seq<ColumnConfig>) -> Seq<ColumnId> {
    columns.map_values(|column: ColumnConfig| column.id)
}

/// The columns this table can be sorted by, in the order `s` walks them.
/// Only what is on screen: sorting by a hidden column would move the rows for
/// a reason nobody could see.
#[must_use]
pub fn sortable(layout: &TableLayout, available: u16) -> (r: Vec<ColumnId>)
    ensures
        r@ == ids(on_screen(layout.columns@, available)),
{
    let columns = layout.visible_columns(available);
    let mut out: Vec<ColumnId> = Vec::new();
    let mut i: usize = 0;
    while i < columns.len()
        invariant
            i <= columns@.len(),
            out@.len() == i,
            forall|k: int| 0 <= k < i ==> #[trigger] out@[k] == columns@[k].id,
        decreases columns@.len() - i,
    {
        out.push(columns[i].id);
        i = i + 1;
    }
    proof {
        assert(out@ =~= ids(columns@));
    }
    out
}

/// The table by vault.
#[must_use]
pub fn default_layout() -> (r: TableLayout)
    ensures
        r.columns@ == secret_layout(),
{
    TableLayout { columns: secret_columns() }
}

/// The place a vault has in an order, the last given where it is given twice.
pub open spec fn place_in(order: Seq<(String, usize)>, vault: Seq<char>) -> Option<usize>
    decreases order.len(),
{
    if order.len() == 0 {
        None
    } else if order.last().0@ == vault {
        Some(order.last().1)
    } else {
        place_in(order.drop_last(), vault)
    }
}

fn place_of(order: &Vec<(String, usize)>, vault: &str) -> (r: Option<usize>)
    ensures
        r == place_in(order@, vault@),
{
    let mut i: usize = order.len();
    proof {
        assert(order@.take(i as int) =~= order@);
    }
    while i > 0
        invariant
            i <= order@.len(),
            place_in(order@, vault@) == place_in(order@.take(i as int), vault@),
        decreases i,
    {
        proof {
            assert(order@.take(i as int).drop_last() =~= order@.take(i - 1));
        }
        if equal(order[i - 1].0.as_str(), vault) {
            return Some(order[i - 1].1);
        }
        i = i - 1;
    }
    None
}

/// A place as a number, a missing one before all others.
pub open spec fn place_number(place: Option<usize>) -> int {
    match place {
        Some(place) => place as int,
        None => -1,
    }
}

/// Where each vault sits in the inventory, so `db-password` reads dev, qa,
/// prod rather than alphabetically. The configuration's order is an opinion;
/// the alphabet is not.
#[must_use]
pub fn vault_order(store: &AzureStore) -> (r: Vec<(String, usize)>)
    ensures
        in_inventory_order(store.inventory.vaults@, r@),
{
    let vaults = &store.inventory.vaults;
    let mut out: Vec<(String, usize)> = Vec::new();
    let mut i: usize = 0;
    while i < vaults.len()
        invariant
            i <= vaults@.len(),
            vaults@ == store.inventory.vaults@,
            out@.len() == i,
            forall|k: int|
                0 <= k < i ==> (#[trigger] out@[k]).0@ == vaults@[k].name@ && out@[k].1 == k,
        decreases vaults@.len() - i,
    {
        out.push((vaults[i].name.clone(), i));
        i = i + 1;
    }
    out
}

/// Each vault's name with its place.
pub open spec fn in_inventory_order(vaults: Seq<Vault>, order: Seq<(String, usize)>) -> bool {
    &&& order.len() == vaults.len()
    &&& forall|k: int|
        0 <= k < order.len() ==> (#[trigger] order[k]).0@ == vaults[k].name@ && order[k].1 == k
}

/// The place of a vault in the inventory, the last of its name.
pub open spec fn inventory_place(vaults: Seq<Vault>, name: Seq<char>) -> Option<usize>
    decreases vaults.len(),
{
    if vaults.len() == 0 {
        None
    } else if vaults.last().name@ == name {
        Some((vaults.len() - 1) as usize)
    } else {
        inventory_place(vaults.drop_last(), name)
    }
}

/// The order that [`vault_order`] gives a vault is its place in the inventory.
pub proof fn law_the_vaults_order_is_the_inventorys(
    vaults: Seq<Vault>,
    order: Seq<(String, usize)>,
    name: Seq<char>,
)
    requires
        in_inventory_order(vaults, order),
    ensures
        place_in(order, name) == inventory_place(vaults, name),
    decreases order.len(),
{
    if order.len() > 0 {
        assert(in_inventory_order(vaults.drop_last(), order.drop_last())) by {
            assert forall|k: int| 0 <= k < order.drop_last().len() implies (
            #[trigger] order.drop_last()[k]).0@ == vaults.drop_last()[k].name@
                && order.drop_last()[k].1 == k by {
                assert(order.drop_last()[k] == order[k]);
            }
        }
        law_the_vaults_order_is_the_inventorys(vaults.drop_last(), order.drop_last(), name);
        assert(order.last() == order[order.len() - 1]);
    }
}

fn place_in_inventory(vaults: &Vec<Vault>, name: &str) -> (r: Option<usize>)
    ensures
        r == inventory_place(vaults@, name@),
{
    let mut i: usize = vaults.len();
    proof {
        assert(vaults@.take(i as int) =~= vaults@);
    }
    while i > 0
        invariant
            i <= vaults@.len(),
            inventory_place(vaults@, name@) == inventory_place(vaults@.take(i as int), name@),
        decreases i,
    {
        proof {
            assert(vaults@.take(i as int).drop_last() =~= vaults@.take(i - 1));
        }
        if equal(vaults[i - 1].name.as_str(), name) {
            return Some(i - 1);
        }
        i = i - 1;
    }
    None
}

/// The order the vaults are shown in.
pub enum VaultOrder<'a> {
    /// Each vault's name with its place.
    Given(&'a Vec<(String, usize)>),
    /// As the inventory lists them.
    Inventory(&'a Vec<Vault>),
}

impl<'a> VaultOrder<'a> {
    pub open spec fn place(&self, vault: Seq<char>) -> Option<usize> {
        match self {
            VaultOrder::Given(order) => place_in(order@, vault),
            VaultOrder::Inventory(vaults) => inventory_place(vaults@, vault),
        }
    }

    fn find(&self, vault: &str) -> (r: Option<usize>)
        ensures
            r == self.place(vault@),
    {
        match self {
            VaultOrder::Given(order) => place_of(order, vault),
            VaultOrder::Inventory(vaults) => place_in_inventory(vaults, vault),
        }
    }
}

/// An environment as a number.
pub open spec fn env_number(env: Option<Env>) -> Option<int> {
    match env {
        Some(env) => Some(env.place()),
        None => None,
    }
}

/// What a row says in one column, for sorting by it.
pub open spec fn cell(row: SecretRow, by: ColumnId, place: Option<usize>) -> Cell {
    match by {
        ColumnId::Env => Cell::Known(env_number(Env::named_in(row.vault@))),
        ColumnId::Vault => Cell::Number(place_number(place)),
        ColumnId::Enabled => Cell::Number(
            if row.enabled {
                1
            } else {
                0
            },
        ),
        ColumnId::Expires => Cell::Known(stamp_number(row.expires)),
        ColumnId::Updated => Cell::Known(stamp_number(row.updated)),
        ColumnId::Created => Cell::Known(stamp_number(row.created)),
        ColumnId::Type => Cell::Letters(said(row.content_type)),
        _ => Cell::Blank,
    }
}

/// Rows, the column they are sorted by, and the order of their vaults.
pub struct SecretTable<'a> {
    pub rows: &'a Vec<SecretRow>,
    pub by: ColumnId,
    pub descending: bool,
    pub order: VaultOrder<'a>,
    pub now: Timestamp,
}

fn compare_places(a: Option<usize>, b: Option<usize>) -> (r: Ordering)
    ensures
        r == order_by_cell(
            Cell::Number(place_number(a)),
            Cell::Number(place_number(b)),
            false,
        ),
{
    match (a, b) {
        (Some(a), Some(b)) => if a < b {
            Ordering::Less
        } else if a == b {
            Ordering::Equal
        } else {
            Ordering::Greater
        },
        (Some(_), None) => Ordering::Greater,
        (None, Some(_)) => Ordering::Less,
        (None, None) => Ordering::Equal,
    }
}

fn compare_flags(a: bool, b: bool) -> (r: Ordering)
    ensures
        r == order_by_cell(
            Cell::Number(
                if a {
                    1
                } else {
                    0
                },
            ),
            Cell::Number(
                if b {
                    1
                } else {
                    0
                },
            ),
            false,
        ),
{
    if a == b {
        Ordering::Equal
    } else if b {
        Ordering::Less
    } else {
        Ordering::Greater
    }
}

/// Two environments that a name may not hold.
pub fn compare_envs(a: Option<Env>, b: Option<Env>, descending: bool) -> (r: Ordering)
    ensures
        r == order_by_cell(Cell::Known(env_number(a)), Cell::Known(env_number(b)), descending),
{
    match (a, b) {
        (Some(x), Some(y)) => {
            let ordering = match (x, y) {
                (Env::Dev, Env::Dev) | (Env::Qa, Env::Qa) | (Env::Prod, Env::Prod)
                    => Ordering::Equal,
                (Env::Dev, _) | (Env::Qa, Env::Prod) => Ordering::Less,
                _ => Ordering::Greater,
            };
            flip(ordering, descending)
        },
        (Some(_), None) => Ordering::Less,
        (None, Some(_)) => Ordering::Greater,
        (None, None) => Ordering::Equal,
    }
}

impl<'a> SecretTable<'a> {
    pub open spec fn vault_place(&self, at: int) -> Option<usize> {
        self.order.place(self.rows@[at].vault@)
    }
}

impl<'a> Arrangement for SecretTable<'a> {
    open spec fn size(&self) -> int {
        self.rows@.len() as int
    }

    /// By the column, then by name, then by the vaults' own order, which is
    /// never turned.
    open spec fn rank(&self, a: int, b: int) -> Ordering {
        then_order(
            then_order(
                order_by_cell(
                    cell(self.rows@[a], self.by, self.vault_place(a)),
                    cell(self.rows@[b], self.by, self.vault_place(b)),
                    self.descending,
                ),
                order_by_cell(
                    Cell::Name(self.rows@[a].name@),
                    Cell::Name(self.rows@[b].name@),
                    self.descending,
                ),
            ),
            order_by_cell(
                Cell::Number(place_number(self.vault_place(a))),
                Cell::Number(place_number(self.vault_place(b))),
                false,
            ),
        )
    }

    proof fn rank_is_total(&self) {
        let turned = |x: Cell, y: Cell| order_by_cell(x, y, self.descending);
        let plain = |x: Cell, y: Cell| order_by_cell(x, y, false);
        let column = |a: int| cell(self.rows@[a], self.by, self.vault_place(a));
        let name = |a: int| Cell::Name(self.rows@[a].name@);
        let vault = |a: int| Cell::Number(place_number(self.vault_place(a)));
        let first = |a: int, b: int| order_by_cell(column(a), column(b), self.descending);
        let second = |a: int, b: int| order_by_cell(name(a), name(b), self.descending);
        let third = |a: int, b: int| order_by_cell(vault(a), vault(b), false);
        let both = |a: int, b: int| then_order(first(a, b), second(a, b));
        lemma_order_by_cell_total(self.descending);
        lemma_order_by_cell_total(false);
        lemma_total_by(turned, column, first);
        lemma_total_by(turned, name, second);
        lemma_total_by(plain, vault, third);
        lemma_total_then(first, second, both);
        lemma_total_then(both, third, |a: int, b: int| self.rank(a, b));
    }

    fn compare_rows(&self, a: usize, b: usize) -> (r: Ordering) {
        let left = &self.rows[a];
        let right = &self.rows[b];
        let here = self.order.find(left.vault.as_str());
        let there = self.order.find(right.vault.as_str());
        let ordering = match self.by {
            ColumnId::Env => compare_envs(
                Env::of(left.vault.as_str()),
                Env::of(right.vault.as_str()),
                self.descending,
            ),
            ColumnId::Vault => flip(compare_places(here, there), self.descending),
            ColumnId::Enabled => flip(compare_flags(left.enabled, right.enabled), self.descending),
            ColumnId::Expires => compare_stamps(left.expires, right.expires, self.descending),
            ColumnId::Updated => compare_stamps(left.updated, right.updated, self.descending),
            ColumnId::Created => compare_stamps(left.created, right.created, self.descending),
            ColumnId::Type => compare_optional(
                &left.content_type,
                &right.content_type,
                self.descending,
            ),
            _ => Ordering::Equal,
        };
        then_with(
            then_with(
                ordering,
                compare_names(left.name.as_str(), right.name.as_str(), self.descending),
            ),
            compare_places(here, there),
        )
    }
}

impl<'a> Searchable for SecretTable<'a> {
    open spec fn searched(&self, at: int) -> Seq<char> {
        searched(self.rows@[at]@)
    }

    open spec fn answers(&self, fields: Seq<(Seq<char>, Seq<char>)>, at: int) -> bool {
        answers_all(self.rows@[at]@, fields, self.now)
    }

    open spec fn filter_keys(&self) -> Seq<Seq<char>> {
        known_keys()
    }

    fn searched_text(&self, at: usize) -> (r: String) {
        haystack(&self.rows[at])
    }

    fn answers_query(&self, query: &Query, at: usize) -> (r: bool) {
        passes(&self.rows[at], query, self.now)
    }

    fn filter_schema(&self) -> (r: Vec<&'static str>) {
        schema()
    }
}

/// Sorts `indices` into `rows` by one column, with the name and then the
/// vault as the tiebreaks — so among rows whose cells are equal, the rows of
/// one secret end up adjacent, which is the whole reason this table is flat.
pub fn sort(
    indices: &mut Vec<usize>,
    rows: &Vec<SecretRow>,
    by: ColumnId,
    descending: bool,
    order: &Vec<(String, usize)>,
)
    requires
        forall|i: int|
            0 <= i < old(indices)@.len() ==> usize_of(#[trigger] old(indices)@[i]) < rows@.len(),
    ensures
        final(indices)@ == picked_in_order(
            &(SecretTable {
                rows,
                by,
                descending,
                order: VaultOrder::Given(order),
                now: Timestamp { seconds: 0 },
            }),
            old(indices),
        ),
{
    let table = SecretTable {
        rows,
        by,
        descending,
        order: VaultOrder::Given(order),
        now: Timestamp { seconds: 0 },
    };
    *indices = sort_picks(&table, &*indices);
}

// ---------------------------------------------------------------------------
// The screen
// ---------------------------------------------------------------------------

/// A value on screen, and when it got there.
pub struct RevealedView {
    pub vault: Seq<char>,
    pub name: Seq<char>,
    pub version: Seq<char>,
    pub value: Seq<char>,
    pub at: u64,
}

/// A value, on screen, and when it got there.
///
/// **This is the one field of the tab that holds a [`Secret`].** It is
/// dropped when the cursor moves, on `r`, on a tab switch, on `v` again, and
/// sixty seconds after it arrived.
pub struct Revealed {
    pub vault: String,
    pub name: String,
    /// The version the vault actually handed over.
    pub version: String,
    pub value: Secret,
    /// The millisecond of the run it got there at.
    pub at: u64,
}

impl View for Revealed {
    type V = RevealedView;

    open spec fn view(&self) -> RevealedView {
        RevealedView {
            vault: self.vault@,
            name: self.name@,
            version: self.version@,
            value: self.value@,
            at: self.at,
        }
    }
}

/// Whole seconds until a value that got on screen at `at` goes.
pub open spec fn seconds_left(at: u64, now: u64) -> int {
    most(REVEAL_FOR - elapsed(at, now), 0) / 1_000
}

/// Whether a value that got on screen at `at` has run out.
pub open spec fn run_out(at: u64, now: u64) -> bool {
    elapsed(at, now) >= REVEAL_FOR
}

pub fn clears_in(at: u64, now: u64) -> (r: u64)
    ensures
        r == seconds_left(at, now),
{
    REVEAL_FOR.saturating_sub(millis_since(at, now)) / 1_000
}

pub fn has_run_out(at: u64, now: u64) -> (r: bool)
    ensures
        r == run_out(at, now),
{
    millis_since(at, now) >= REVEAL_FOR
}

/// A value is on screen for sixty seconds and not one longer.
pub proof fn law_a_value_lasts_sixty_seconds(at: u64, now: u64)
    requires
        at <= now,
    ensures
        run_out(at, now) <==> now - at >= 60_000,
        run_out(at, now) ==> seconds_left(at, now) == 0,
        seconds_left(at, at) == 60,
{
}

impl Revealed {
    /// The value, for the one line that is about to draw it or the one key
    /// that is about to copy it.
    #[must_use]
    pub fn expose(&self) -> (r: &str)
        ensures
            r@ == self@.value,
    {
        self.value.expose()
    }

    /// How many lines the value has, without reading it out.
    #[must_use]
    pub fn line_count(&self) -> (r: usize)
        ensures
            r == if lines_of(self@.value).len() == 0 {
                1
            } else {
                lines_of(self@.value).len() as int
            },
    {
        self.value.line_count()
    }

    /// Whole seconds until it goes.
    #[must_use]
    pub fn clears_in(&self, now: u64) -> (r: u64)
        ensures
            r == seconds_left(self.at, now),
    {
        clears_in(self.at, now)
    }

    #[must_use]
    pub fn expired(&self, now: u64) -> (r: bool)
        ensures
            r == run_out(self.at, now),
    {
        has_run_out(self.at, now)
    }

    /// What a log line would say of it: everything but the value.
    #[must_use]
    pub fn printed(&self) -> (r: String)
        ensures
            r@ == self.vault@ + "/"@ + self.name@ + " "@ + self.version@ + " "@
                + crate::azure::redacted(),
    {
        let mut text = self.vault.clone();
        text.push_str("/");
        text.push_str(self.name.as_str());
        text.push_str(" ");
        text.push_str(self.version.as_str());
        text.push_str(" ");
        text.push_str(self.value.printed().as_str());
        text
    }
}

/// A value request in flight.
pub struct ReadingView {
    pub vault: Seq<char>,
    pub name: Seq<char>,
    pub copy: bool,
}

/// A value request in flight.
#[derive(Debug)]
pub struct Reading {
    pub vault: String,
    pub name: String,
    /// `y` sent it, so the answer goes to the clipboard rather than the
    /// screen. `v` sent it otherwise.
    pub copy: bool,
}

impl View for Reading {
    type V = ReadingView;

    open spec fn view(&self) -> ReadingView {
        ReadingView { vault: self.vault@, name: self.name@, copy: self.copy }
    }
}

/// What the Secrets tab holds.
pub struct SecretsView {
    pub cursor: ListCursor,
    pub layout: Seq<ColumnConfig>,
    pub input: InputView,
    pub sort: ColumnId,
    pub descending: bool,
    pub rows: RowsView,
    pub available: u16,
    pub revealed: Option<RevealedView>,
    pub reading: Option<ReadingView>,
    pub refusal: Option<Seq<char>>,
    pub rested: Option<(usize, u64)>,
    pub asked: Seq<(Seq<char>, Seq<char>)>,
    pub details_scroll: ScrollState,
}

/// What a row is told apart by: its vault and its name.
pub open spec fn names(row: SecretRow) -> (Seq<char>, Seq<char>) {
    (row.vault@, row.name@)
}

/// Where among the shown rows the one of those names is, or how many are
/// shown where it is not among them.
pub open spec fn shown_at(
    visible: Seq<usize>,
    rows: Seq<SecretRow>,
    wanted: (Seq<char>, Seq<char>),
) -> int
    decreases visible.len(),
{
    if visible.len() == 0 || (visible[0] < rows.len() && names(rows[visible[0] as int]) == wanted) {
        0
    } else {
        1 + shown_at(visible.skip(1), rows, wanted)
    }
}

proof fn lemma_shown_at(
    visible: Seq<usize>,
    rows: Seq<SecretRow>,
    wanted: (Seq<char>, Seq<char>),
    i: int,
)
    requires
        0 <= i <= visible.len(),
        forall|k: int|
            0 <= k < i ==> !(#[trigger] visible[k] < rows.len() && names(rows[visible[k] as int])
                == wanted),
        i < visible.len() ==> visible[i] < rows.len() && names(rows[visible[i] as int]) == wanted,
    ensures
        shown_at(visible, rows, wanted) == i,
    decreases i,
{
    if i > 0 {
        assert(visible[0] == visible[0]);
        assert forall|k: int| 0 <= k < i - 1 implies !(#[trigger] visible.skip(1)[k] < rows.len()
            && names(rows[visible.skip(1)[k] as int]) == wanted) by {
            assert(visible.skip(1)[k] == visible[k + 1]);
        }
        lemma_shown_at(visible.skip(1), rows, wanted, i - 1);
    }
}

/// What the footer says while the search box has focus.
pub open spec fn search_hint() -> Seq<char> {
    "Esc/Enter keep the filter  Esc again clears it  Ctrl-U empties the box"@
}

/// What the footer says of the Secrets tab.
pub open spec fn secrets_hint() -> Seq<char> {
    "↑↓/jk move  / search  v reveal  y copy value  Y copy name  s sort  r refresh  ? help"@
}

impl SecretsView {
    /// The tab as it opens.
    pub open spec fn opening() -> Self {
        SecretsView {
            cursor: ListCursor::at_rest(),
            layout: environment_layout(),
            input: InputView::empty(),
            sort: ColumnId::Name,
            descending: false,
            rows: RowsView::empty(),
            available: 0,
            revealed: None,
            reading: None,
            refusal: None,
            rested: None,
            asked: Seq::empty(),
            details_scroll: ScrollState { offset: 0, content: 0, viewport: 0 },
        }
    }

    /// The row under the cursor.
    pub open spec fn selected(self, store: AzureStore) -> Option<SecretRow> {
        if self.cursor.index < self.rows.visible.len() {
            let at = self.rows.visible[self.cursor.index as int] as int;
            if at < store.secrets@.len() {
                Some(store.secrets@[at])
            } else {
                None
            }
        } else {
            None
        }
    }

    /// What the cursor is on.
    pub open spec fn identity(self, store: AzureStore) -> Option<(Seq<char>, Seq<char>)> {
        match self.selected(store) {
            Some(row) => Some(names(row)),
            None => None,
        }
    }

    /// The tab after a look at its rows.
    pub open spec fn refiltered(self, store: AzureStore, now: Timestamp) -> Self {
        let table = SecretTable {
            rows: &store.secrets,
            by: self.sort,
            descending: self.descending,
            order: VaultOrder::Inventory(&store.inventory.vaults),
            now,
        };
        let key = (self.sort, self.descending, store.secrets.len());
        let rows = self.rows.refreshed(&table, key, self.input.text);
        SecretsView {
            rows,
            cursor: if self.rows.rebuilt(key, self.input.text) {
                self.cursor.clamped(rows.visible.len() as usize)
            } else {
                self.cursor
            },
            ..self
        }
    }

    /// With the rows to be worked out again.
    pub open spec fn spoiled(self) -> Self {
        SecretsView { rows: self.rows.spoiled(), ..self }
    }

    /// After a refresh: back onto the same secret if it is still shown.
    pub open spec fn kept(
        self,
        store: AzureStore,
        was: Option<(Seq<char>, Seq<char>)>,
        now: Timestamp,
    ) -> Self {
        let seen = self.refiltered(store, now);
        let count = seen.rows.visible.len() as usize;
        match was {
            Some(wanted) => {
                let at = shown_at(seen.rows.visible, store.secrets@, wanted);
                if at < seen.rows.visible.len() {
                    SecretsView { cursor: seen.cursor.focused(at as usize), ..seen }
                } else {
                    SecretsView { cursor: seen.cursor.clamped(count), ..seen }
                }
            },
            None => SecretsView { cursor: seen.cursor.clamped(count), ..seen },
        }
    }

    pub open spec fn next_sorted(self) -> Self {
        match sort_after(self.layout, self.sort, self.available) {
            Some(next) => SecretsView { sort: next, descending: false, ..self },
            None => self,
        }
    }

    pub open spec fn sorted_by(self, column: ColumnId) -> Self {
        if self.sort == column {
            if self.descending {
                SecretsView { sort: ColumnId::Name, descending: false, ..self }
            } else {
                SecretsView { descending: true, ..self }
            }
        } else {
            SecretsView { sort: column, descending: false, ..self }
        }
    }

    /// With the cursor somewhere. If that is another row, the value that was
    /// on screen goes, what the last row refused with goes, and the details
    /// are back at their top.
    pub open spec fn with_cursor(self, cursor: ListCursor) -> Self {
        if cursor.index == self.cursor.index {
            SecretsView { cursor, ..self }
        } else {
            SecretsView {
                cursor,
                revealed: None,
                refusal: None,
                details_scroll: self.details_scroll.scrolled_to(0),
                ..self
            }
        }
    }

    pub open spec fn scrolled(self, delta: int) -> Self {
        SecretsView {
            details_scroll: self.details_scroll.scrolled_to(self.details_scroll.offset + delta),
            ..self
        }
    }

    /// Whether the value on screen is the row's.
    pub open spec fn shows_value_of(self, row: SecretRow) -> bool {
        self.revealed matches Some(held) && (held.vault, held.name) == names(row)
    }

    /// With a value asked for.
    pub open spec fn reading(self, row: SecretRow, copy: bool) -> Self {
        SecretsView {
            refusal: None,
            reading: Some(ReadingView { vault: row.vault@, name: row.name@, copy }),
            ..self
        }
    }

    /// `v` or `Enter`: the value is asked for, or hidden where it shows.
    pub open spec fn revealing(self, store: AzureStore) -> (Self, ActionView) {
        match self.selected(store) {
            None => (self, ActionView::Nothing),
            Some(row) => if self.shows_value_of(row) {
                (SecretsView { revealed: None, ..self }, ActionView::Nothing)
            } else {
                (self.reading(row, false), ask_value(row))
            },
        }
    }

    /// `y`: the value is copied where it shows, and otherwise asked for.
    pub open spec fn copying(self, shell: ShellView, store: AzureStore) -> (
        Self,
        ShellView,
        ActionView,
    ) {
        match self.selected(store) {
            None => (self, shell, ActionView::Nothing),
            Some(row) => if self.shows_value_of(row) {
                (self, shell, copy_value(self.revealed->0.value, row.vault@, row.name@))
            } else {
                (
                    self.reading(row, true),
                    shell.saying("reading "@ + row.name@ + "…"@),
                    ask_value(row),
                )
            },
        }
    }

    /// The keys that act on the row rather than move to it.
    pub open spec fn acted(self, shell: ShellView, store: AzureStore, code: KeyCode) -> (
        Self,
        ShellView,
        ActionView,
    ) {
        match code {
            KeyCode::Enter | KeyCode::Char('v') => {
                let (then, action) = self.revealing(store);
                (then, shell, action)
            },
            KeyCode::Char('y') => self.copying(shell, store),
            KeyCode::Char('Y') => match self.selected(store) {
                None => (self, shell, ActionView::Nothing),
                Some(row) => (
                    self,
                    shell,
                    ActionView::Copy {
                        text: row.name@,
                        label: "Copied the name "@ + row.name@ + " ("@ + row.vault@ + ")"@,
                    },
                ),
            },
            KeyCode::Char('o') => match self.selected(store) {
                None => (self, shell, ActionView::Nothing),
                Some(row) => match store.vault_named(row.vault@) {
                    None => (
                        self,
                        shell.warning(row.vault@ + " is not in the inventory"@),
                        ActionView::Nothing,
                    ),
                    Some(vault) => (
                        self,
                        shell,
                        ActionView::OpenUrl(portal_text(vault.id@) + "/secrets"@),
                    ),
                },
            },
            _ => (self, shell, ActionView::Nothing),
        }
    }

    /// One key the shell did not take.
    pub open spec fn pressed(self, shell: ShellView, store: AzureStore, key: KeyEvent) -> (
        Self,
        ShellView,
        ActionView,
    ) {
        let count = self.rows.visible.len() as usize;
        let step = self.cursor.scroll.step();
        let page = self.details_scroll.page_rows();
        if shell.focus == Focus::Details {
            match key.code {
                KeyCode::Char('j') | KeyCode::Down => (self.scrolled(1), shell, ActionView::Nothing),
                KeyCode::Char('k') | KeyCode::Up => (self.scrolled(-1), shell, ActionView::Nothing),
                KeyCode::PageDown => (self.scrolled(page), shell, ActionView::Nothing),
                KeyCode::PageUp => (self.scrolled(-page), shell, ActionView::Nothing),
                _ => self.acted(shell, store, key.code),
            }
        } else {
            let moved = match key.code {
                KeyCode::Char('j') | KeyCode::Down => Some(self.cursor.moved(1, count)),
                KeyCode::Char('k') | KeyCode::Up => Some(self.cursor.moved(-1, count)),
                KeyCode::PageDown => Some(self.cursor.moved(step, count)),
                KeyCode::PageUp => Some(self.cursor.moved(-step, count)),
                KeyCode::Home => Some(self.cursor.focused(0)),
                KeyCode::End => Some(self.cursor.moved(isize::MAX as int, count)),
                _ => None::<ListCursor>,
            };
            match moved {
                Some(cursor) => (self.with_cursor(cursor), shell, ActionView::Nothing),
                None => match key.code {
                    KeyCode::Char('s') => (self.next_sorted(), shell, ActionView::Nothing),
                    KeyCode::Char('S') => (
                        SecretsView { descending: !self.descending, ..self },
                        shell,
                        ActionView::Nothing,
                    ),
                    _ => self.acted(shell, store, key.code),
                },
            }
        }
    }

    /// A click: on a row, the cursor; on a header, the sort.
    pub open spec fn clicked(self, target: Target) -> Self {
        let count = self.rows.visible.len();
        let last = most(count - 1, 0);
        match target {
            Target::Row(index) => self.with_cursor(
                self.cursor.focused(
                    if index < last {
                        index
                    } else {
                        last as usize
                    },
                ),
            ),
            Target::Header(column) => self.sorted_by(column),
            _ => self,
        }
    }

    pub open spec fn wheeled(self, target: Option<Target>, delta: int) -> Self {
        if target == Some(Target::Details) {
            self.scrolled(delta)
        } else {
            self.with_cursor(self.cursor.wheeled(delta, self.rows.visible.len() as usize))
        }
    }

    /// A value has come back.
    pub open spec fn answered(
        self,
        shell: ShellView,
        store: AzureStore,
        vault: Seq<char>,
        name: Seq<char>,
        result: Result<(Seq<char>, Seq<char>), Seq<char>>,
        now: u64,
    ) -> (Self, ShellView, ActionView) {
        let still_here = self.identity(store) == Some((vault, name));
        match self.reading {
            Some(asked) if asked.vault == vault && asked.name == name => {
                let then = SecretsView { reading: None, ..self };
                match result {
                    Err(message) => (
                        if still_here {
                            SecretsView { refusal: Some(message), ..then }
                        } else {
                            then
                        },
                        if asked.copy {
                            shell.warning(message)
                        } else {
                            shell
                        },
                        ActionView::Nothing,
                    ),
                    Ok((value, version)) => if asked.copy {
                        (then, shell, copy_value(value, vault, name))
                    } else if still_here {
                        (
                            SecretsView {
                                revealed: Some(
                                    RevealedView { vault, name, version, value, at: now },
                                ),
                                ..then
                            },
                            shell,
                            ActionView::Nothing,
                        )
                    } else {
                        (then, shell, ActionView::Nothing)
                    },
                }
            },
            _ => (self, shell, ActionView::Nothing),
        }
    }

    /// With a value that has run out taken off the screen.
    pub open spec fn aged(self, now: u64) -> Self {
        match self.revealed {
            Some(held) if run_out(held.at, now) => SecretsView { revealed: None, ..self },
            _ => self,
        }
    }

    /// One turn of the clock, and what it asks for.
    pub open spec fn ticked(self, store: AzureStore, now: u64) -> (Self, Option<RequestView>) {
        let then = self.aged(now);
        match then.selected(store) {
            None => (then, None),
            Some(row) => match then.rested {
                Some((at, since)) if at == then.cursor.index => if elapsed(since, now) < REST
                    || store.versions_read(row.vault@, row.name@) || then.asked.contains(
                    names(row),
                ) {
                    (then, None)
                } else {
                    (
                        SecretsView { asked: then.asked.push(names(row)), ..then },
                        Some(RequestView::Versions { vault: row.vault@, name: row.name@ }),
                    )
                },
                _ => (SecretsView { rested: Some((then.cursor.index, now)), ..then }, None),
            },
        }
    }

    /// `r`, or a tab switch: whatever belongs to the rows as they were goes.
    pub open spec fn looked_away(self) -> Self {
        SecretsView {
            revealed: None,
            reading: None,
            refusal: None,
            asked: Seq::empty(),
            ..self
        }
    }
}

/// The request that asks for a row's value.
pub open spec fn ask_value(row: SecretRow) -> ActionView {
    ActionView::Azure(
        RequestView::Value { vault: row.vault@, name: row.name@, version: None },
    )
}

/// A value put on the clipboard, under a label that does not hold it.
pub open spec fn copy_value(value: Seq<char>, vault: Seq<char>, name: Seq<char>) -> ActionView {
    ActionView::Copy {
        text: value,
        label: "Copied value of "@ + name + " ("@ + vault + ")"@,
    }
}

/// The Secrets tab.
pub struct SecretsScreen {
    pub cursor: ListCursor,
    pub layout: TableLayout,
    pub input: TextInput,
    pub sort: ColumnId,
    pub descending: bool,
    /// Which rows of the store are shown, in the order they are shown.
    pub rows: Rows,
    /// The width the columns were last solved at, which is what `s` walks.
    pub available: u16,
    /// The one place a value lives. See [`Revealed`].
    pub revealed: Option<Revealed>,
    /// A value request that has gone out and not come back, and whether it
    /// was `y` rather than `v` that sent it.
    pub reading: Option<Reading>,
    /// What the vault said when it would not hand one over. Cleared when the
    /// cursor moves.
    pub refusal: Option<String>,
    /// Where the cursor is and when it got there, for the rest interval that
    /// gates the versions request.
    pub rested: Option<(usize, u64)>,
    /// The rows whose versions have already been asked for this run, so a
    /// cursor coming back to one costs nothing.
    pub asked: Vec<(String, String)>,
    /// How far down the details pane is scrolled.
    pub details_scroll: ScrollState,
}

pub open spec fn revealed_view(revealed: Option<Revealed>) -> Option<RevealedView> {
    match revealed {
        Some(held) => Some(held@),
        None => None,
    }
}

pub open spec fn reading_view(reading: Option<Reading>) -> Option<ReadingView> {
    match reading {
        Some(held) => Some(held@),
        None => None,
    }
}

impl View for SecretsScreen {
    type V = SecretsView;

    open spec fn view(&self) -> SecretsView {
        SecretsView {
            cursor: self.cursor,
            layout: self.layout.columns@,
            input: self.input@,
            sort: self.sort,
            descending: self.descending,
            rows: self.rows@,
            available: self.available,
            revealed: revealed_view(self.revealed),
            reading: reading_view(self.reading),
            refusal: said(self.refusal),
            rested: self.rested,
            asked: pairs(self.asked@),
            details_scroll: self.details_scroll,
        }
    }
}

impl Default for SecretsScreen {
    fn default() -> (r: Self)
        ensures
            r@ == SecretsView::opening(),
    {
        let r = SecretsScreen {
            cursor: ListCursor::default(),
            layout: TableLayout { columns: environment_columns() },
            input: TextInput::default(),
            sort: ColumnId::Name,
            descending: false,
            rows: Rows::new(),
            available: 0,
            revealed: None,
            reading: None,
            refusal: None,
            rested: None,
            asked: Vec::new(),
            details_scroll: ScrollState::default(),
        };
        proof {
            assert(r@.asked =~= Seq::<(Seq<char>, Seq<char>)>::empty());
        }
        r
    }
}

/// What an answer holds.
pub open spec fn answer_view(result: Result<(Secret, String), String>) -> Result<
    (Seq<char>, Seq<char>),
    Seq<char>,
> {
    match result {
        Ok((secret, version)) => Ok((secret@, version@)),
        Err(message) => Err(message@),
    }
}

/// What a pair of strings spells, where there is one.
pub open spec fn pair_said(pair: Option<(String, String)>) -> Option<(Seq<char>, Seq<char>)> {
    match pair {
        Some((a, b)) => Some((a@, b@)),
        None => None,
    }
}

/// Whether a pair stands in a list.
pub fn has_pair(list: &Vec<(String, String)>, first: &str, second: &str) -> (r: bool)
    ensures
        r == pairs(list@).contains((first@, second@)),
{
    let mut i: usize = 0;
    while i < list.len()
        invariant
            i <= list@.len(),
            forall|k: int| 0 <= k < i ==> #[trigger] pairs(list@)[k] != (first@, second@),
        decreases list@.len() - i,
    {
        if equal(list[i].0.as_str(), first) && equal(list[i].1.as_str(), second) {
            proof {
                assert(pairs(list@)[i as int] == (first@, second@));
            }
            return true;
        }
        proof {
            assert(pairs(list@)[i as int] != (first@, second@));
        }
        i = i + 1;
    }
    false
}

impl SecretsScreen {
    /// The rows on screen, as places in the store.
    #[must_use]
    pub fn visible(&self) -> (r: &Vec<usize>)
        ensures
            r@ == self@.rows.visible,
    {
        &self.rows.visible
    }

    /// The row under the cursor.
    #[must_use]
    pub fn selected<'a>(&self, store: &'a AzureStore) -> (r: Option<&'a SecretRow>)
        ensures
            r == match self@.selected(*store) {
                Some(row) => Some(&row),
                None => None::<&SecretRow>,
            },
    {
        if self.cursor.index < self.rows.visible.len() {
            let at: usize = self.rows.visible[self.cursor.index];
            if at < store.secrets.len() {
                return Some(&store.secrets[at]);
            }
        }
        None
    }

    /// Rebuilds the shown rows when the query, the sort or the rows have
    /// moved. Cheap to call every frame: it compares first, and a keystroke
    /// only ever re-runs the filter.
    pub fn refilter(&mut self, store: &AzureStore, now: Timestamp)
        ensures
            final(self)@ == old(self)@.refiltered(*store, now),
    {
        let table = SecretTable {
            rows: &store.secrets,
            by: self.sort,
            descending: self.descending,
            order: VaultOrder::Inventory(&store.inventory.vaults),
            now,
        };
        let key: OrderKey = (self.sort, self.descending, store.secrets.len());
        if self.rows.refresh(&table, key, self.input.text()) {
            self.cursor.clamp(self.rows.visible.len());
        }
    }

    /// Forces the next `refilter` to do the work, after the rows underneath
    /// have moved.
    pub fn invalidate(&mut self)
        ensures
            final(self)@ == old(self)@.spoiled(),
    {
        self.rows.invalidate();
    }

    /// `s`: the next column on screen. `S`: the same column the other way.
    pub fn next_sort(&mut self)
        ensures
            final(self)@ == old(self)@.next_sorted(),
    {
        if let Some(next) = self.layout.next_sort(self.sort, self.available) {
            self.sort = next;
            self.descending = false;
        }
    }

    /// A header click: the same column cycles ascending, descending, then
    /// back to the default; a different column starts ascending.
    pub fn sort_by(&mut self, column: ColumnId)
        ensures
            final(self)@ == old(self)@.sorted_by(column),
    {
        if self.sort == column {
            if self.descending {
                self.sort = ColumnId::Name;
                self.descending = false;
            } else {
                self.descending = true;
            }
        } else {
            self.sort = column;
            self.descending = false;
        }
    }

    /// What the bottom border says: how many rows of how many, and the sort.
    #[must_use]
    pub fn status(&self, store: &AzureStore) -> (r: String)
        ensures
            r@ == border(
                self@.rows.visible.len() as int,
                store.secrets@.len() as int,
                self@.sort,
                self@.descending,
            ),
    {
        border_text(self.rows.visible.len(), store.secrets.len(), self.sort, self.descending)
    }

    /// Remembers the width the columns were solved at, so `s` walks the
    /// columns that are actually on screen.
    pub fn note_width(&mut self, available: u16)
        ensures
            final(self)@ == (SecretsView { available, ..old(self)@ }),
    {
        self.available = available;
    }

    fn find(&self, store: &AzureStore, vault: &str, name: &str) -> (r: usize)
        ensures
            r == shown_at(self@.rows.visible, store.secrets@, (vault@, name@)),
            r <= self@.rows.visible.len(),
    {
        let visible = &self.rows.visible;
        let ghost wanted = (vault@, name@);
        let mut i: usize = 0;
        while i < visible.len()
            invariant
                i <= visible@.len(),
                visible@ == self@.rows.visible,
                wanted == (vault@, name@),
                forall|k: int|
                    0 <= k < i ==> !(#[trigger] visible@[k] < store.secrets@.len() && names(
                        store.secrets@[visible@[k] as int],
                    ) == wanted),
            decreases visible@.len() - i,
        {
            let at: usize = visible[i];
            if at < store.secrets.len() && equal(store.secrets[at].vault.as_str(), vault) && equal(
                store.secrets[at].name.as_str(),
                name,
            ) {
                proof {
                    lemma_shown_at(visible@, store.secrets@, wanted, i as int);
                }
                return i;
            }
            i = i + 1;
        }
        proof {
            lemma_shown_at(visible@, store.secrets@, wanted, i as int);
        }
        i
    }

    /// After a refresh: back onto the same secret if it is still shown.
    pub fn keep_cursor(
        &mut self,
        store: &AzureStore,
        was: Option<(String, String)>,
        now: Timestamp,
    )
        ensures
            final(self)@ == old(self)@.kept(*store, pair_said(was), now),
    {
        self.refilter(store, now);
        if let Some((vault, name)) = was {
            let at: usize = self.find(store, vault.as_str(), name.as_str());
            if at < self.rows.visible.len() {
                self.cursor.focus(at);
                return;
            }
        }
        self.cursor.clamp(self.rows.visible.len());
    }

    /// What the cursor is on, by identity rather than by position, for
    /// putting it back after the rows have moved.
    #[must_use]
    pub fn cursor_identity(&self, store: &AzureStore) -> (r: Option<(String, String)>)
        ensures
            pair_said(r) == self@.identity(*store),
    {
        match self.selected(store) {
            Some(row) => Some((row.vault.clone(), row.name.clone())),
            None => None,
        }
    }

    /// The cursor is somewhere else than it was: a value on screen goes, and
    /// what the last row refused with.
    fn settle_cursor(&mut self, before: usize)
        ensures
            final(self)@ == (SecretsView { cursor: ListCursor { index: before, ..old(
                self,
            )@.cursor }, ..old(self)@ }).with_cursor(old(self)@.cursor),
    {
        if self.cursor.index != before {
            self.revealed = None;
            self.refusal = None;
            self.details_scroll.scroll_to(0);
        }
    }

    /// One key the shell did not take: movement, sorting, and the keys that
    /// reveal and copy.
    pub fn handle_key(&mut self, shell: &mut Shell, store: &AzureStore, key: KeyEvent) -> (r:
        AppAction)
        ensures
            (final(self)@, final(shell)@, r@) == old(self)@.pressed(old(shell)@, *store, key),
    {
        let count: usize = self.rows.visible.len();
        // `j` and `k` scroll the details pane when that is what has focus,
        // so a long value or a long list of versions can be read.
        if shell.has_focus(Focus::Details) {
            let page: i32 = self.details_scroll.page_delta();
            match key.code {
                KeyCode::Char('j') | KeyCode::Down => {
                    self.details_scroll.scroll_by(1);
                },
                KeyCode::Char('k') | KeyCode::Up => {
                    self.details_scroll.scroll_by(-1);
                },
                KeyCode::PageDown => {
                    self.details_scroll.scroll_by(page);
                },
                KeyCode::PageUp => {
                    self.details_scroll.scroll_by(-page);
                },
                _ => return self.acting_key(shell, store, key),
            }
            return AppAction::Nothing;
        }
        let before: usize = self.cursor.index;
        match key.code {
            KeyCode::Char('j') | KeyCode::Down => self.cursor.move_by(1, count),
            KeyCode::Char('k') | KeyCode::Up => self.cursor.move_by(-1, count),
            KeyCode::PageDown => self.cursor.page(1, count),
            KeyCode::PageUp => self.cursor.page(-1, count),
            KeyCode::Home => self.cursor.focus(0),
            KeyCode::End => self.cursor.move_by(isize::MAX, count),
            KeyCode::Char('s') => {
                self.next_sort();
                return AppAction::Nothing;
            },
            KeyCode::Char('S') => {
                self.descending = !self.descending;
                return AppAction::Nothing;
            },
            _ => return self.acting_key(shell, store, key),
        }
        self.settle_cursor(before);
        AppAction::Nothing
    }

    /// The keys that act on the row rather than move to it. They work from
    /// either pane, because which pane has focus is not what `y` is about.
    fn acting_key(&mut self, shell: &mut Shell, store: &AzureStore, key: KeyEvent) -> (r: AppAction)
        ensures
            (final(self)@, final(shell)@, r@) == old(self)@.acted(old(shell)@, *store, key.code),
    {
        match key.code {
            KeyCode::Char('v') | KeyCode::Enter => self.show_or_hide(store),
            KeyCode::Char('y') => self.copy_value(shell, store),
            KeyCode::Char('Y') => match self.selected(store) {
                None => AppAction::Nothing,
                Some(row) => {
                    let mut label = "Copied the name ".to_owned();
                    label.push_str(row.name.as_str());
                    label.push_str(" (");
                    label.push_str(row.vault.as_str());
                    label.push_str(")");
                    AppAction::Copy { text: row.name.clone(), label }
                },
            },
            KeyCode::Char('o') => self.open_in_portal(shell, store),
            _ => AppAction::Nothing,
        }
    }

    /// A click on a row moves the cursor there, and takes a revealed value
    /// off the screen with it, as a key would.
    pub fn handle_click(&mut self, target: Target) -> (r: AppAction)
        ensures
            final(self)@ == old(self)@.clicked(target),
            r is Nothing,
    {
        match target {
            Target::Row(index) => {
                let before: usize = self.cursor.index;
                let last: usize = self.rows.visible.len().saturating_sub(1);
                self.cursor.focus(
                    if index < last {
                        index
                    } else {
                        last
                    },
                );
                self.settle_cursor(before);
            },
            Target::Header(column) => self.sort_by(column),
            _ => {},
        }
        AppAction::Nothing
    }

    /// The wheel: over the details, they scroll; elsewhere the cursor follows
    /// the viewport rather than being left behind it, so what `v` acts on is
    /// always something on screen.
    pub fn handle_wheel(&mut self, target: Option<Target>, delta: i32)
        ensures
            final(self)@ == old(self)@.wheeled(target, delta as int),
    {
        if let Some(Target::Details) = target {
            self.details_scroll.scroll_by(delta);
            return;
        }
        let before: usize = self.cursor.index;
        let count: usize = self.rows.visible.len();
        self.cursor.wheel(delta, count);
        self.settle_cursor(before);
    }

    /// The vault's secrets blade in the portal.
    fn open_in_portal(&self, shell: &mut Shell, store: &AzureStore) -> (r: AppAction)
        ensures
            (self@, final(shell)@, r@) == self@.acted(old(shell)@, *store, KeyCode::Char('o')),
    {
        match self.selected(store) {
            None => AppAction::Nothing,
            Some(row) => match store.vault(row.vault.as_str()) {
                None => {
                    let mut said = row.vault.clone();
                    said.push_str(" is not in the inventory");
                    shell.set_error(said.as_str());
                    AppAction::Nothing
                },
                Some(vault) => {
                    let mut url = portal_url(vault.id.as_str());
                    url.push_str("/secrets");
                    AppAction::OpenUrl(url)
                },
            },
        }
    }

    /// `⚠ N`, where N is the enabled secrets running out inside thirty days.
    #[must_use]
    pub fn badge(&self, store: &AzureStore, now: Timestamp) -> (r: Option<String>)
        ensures
            said(r) == secrets_badge(*store, now),
    {
        let count: usize = expiring(&store.secrets, now);
        if count > 0 {
            let mut badge = "⚠ ".to_owned();
            badge.push_str(number(count as u64).as_str());
            Some(badge)
        } else {
            None
        }
    }

    #[must_use]
    pub fn footer_hint(&self, shell: &Shell) -> (r: String)
        ensures
            r@ == if shell@.focus == Focus::Search {
                search_hint()
            } else {
                secrets_hint()
            },
    {
        if shell.has_focus(Focus::Search) {
            "Esc/Enter keep the filter  Esc again clears it  Ctrl-U empties the box".to_owned()
        } else {
            "↑↓/jk move  / search  v reveal  y copy value  Y copy name  s sort  r refresh  ? help".to_owned()
        }
    }

    /// Whether a value for this row has been asked for and not come back.
    #[must_use]
    pub fn is_reading(&self, row: &SecretRow) -> (r: bool)
        ensures
            r == (self@.reading matches Some(held) && (held.vault, held.name) == names(*row)
                && !held.copy),
    {
        match &self.reading {
            Some(held) => equal(held.vault.as_str(), row.vault.as_str()) && equal(
                held.name.as_str(),
                row.name.as_str(),
            ) && !held.copy,
            None => false,
        }
    }

    /// The revealed value, if it is this row's.
    #[must_use]
    pub fn revealed_here(&self, row: &SecretRow) -> (r: Option<&Revealed>)
        ensures
            r is Some == self@.shows_value_of(*row),
            r matches Some(held) ==> self.revealed == Some(*held),
    {
        match &self.revealed {
            Some(held) => if equal(held.vault.as_str(), row.vault.as_str()) && equal(
                held.name.as_str(),
                row.name.as_str(),
            ) {
                Some(held)
            } else {
                None
            },
            None => None,
        }
    }

    #[must_use]
    pub fn refusal(&self) -> (r: Option<&String>)
        ensures
            r == match self.refusal {
                Some(held) => Some(&held),
                None => None::<&String>,
            },
    {
        self.refusal.as_ref()
    }

    /// `v` or `Enter`: show it, or hide it if it is already showing.
    fn show_or_hide(&mut self, store: &AzureStore) -> (r: AppAction)
        ensures
            (final(self)@, r@) == old(self)@.revealing(*store),
    {
        match self.selected(store) {
            None => AppAction::Nothing,
            Some(row) => {
                if self.revealed_here(row).is_some() {
                    self.revealed = None;
                    return AppAction::Nothing;
                }
                self.refusal = None;
                self.reading = Some(
                    Reading { vault: row.vault.clone(), name: row.name.clone(), copy: false },
                );
                AppAction::Azure(
                    Request::Value {
                        vault: row.vault.clone(),
                        name: row.name.clone(),
                        version: None,
                    },
                )
            },
        }
    }

    /// `y`: copy the value without showing it. A value already on screen is
    /// copied at once and nothing is asked for.
    fn copy_value(&mut self, shell: &mut Shell, store: &AzureStore) -> (r: AppAction)
        ensures
            (final(self)@, final(shell)@, r@) == old(self)@.copying(old(shell)@, *store),
    {
        match self.selected(store) {
            None => AppAction::Nothing,
            Some(row) => {
                if let Some(held) = self.revealed_here(row) {
                    return AppAction::Copy {
                        // One of the two places a value is read out. Nothing
                        // about it reaches the label.
                        text: held.expose().to_owned(),
                        label: copied_label(held.vault.as_str(), held.name.as_str()),
                    };
                }
                self.refusal = None;
                self.reading = Some(
                    Reading { vault: row.vault.clone(), name: row.name.clone(), copy: true },
                );
                let mut said = "reading ".to_owned();
                said.push_str(row.name.as_str());
                said.push_str("…");
                shell.set_status(said.as_str());
                AppAction::Azure(
                    Request::Value {
                        vault: row.vault.clone(),
                        name: row.name.clone(),
                        version: None,
                    },
                )
            },
        }
    }

    /// A value has come back. It is kept only if the cursor is still on the
    /// row that asked; a value for a row somebody has left is dropped on the
    /// floor rather than shown next to the wrong name. An answer that is not
    /// the one asked for cancels nothing.
    pub fn on_value(
        &mut self,
        shell: &mut Shell,
        store: &AzureStore,
        vault: &str,
        name: &str,
        result: Result<(Secret, String), String>,
        now: u64,
    ) -> (r: AppAction)
        ensures
            (final(self)@, final(shell)@, r@) == old(self)@.answered(
                old(shell)@,
                *store,
                vault@,
                name@,
                answer_view(result),
                now,
            ),
    {
        let copy = match &self.reading {
            Some(held) => if equal(held.vault.as_str(), vault) && equal(held.name.as_str(), name) {
                held.copy
            } else {
                return AppAction::Nothing;
            },
            None => return AppAction::Nothing,
        };
        let still_here = match self.selected(store) {
            Some(row) => equal(row.vault.as_str(), vault) && equal(row.name.as_str(), name),
            None => false,
        };
        self.reading = None;
        match result {
            Err(message) => {
                if copy {
                    shell.set_error(message.as_str());
                }
                if still_here {
                    self.refusal = Some(message);
                }
                AppAction::Nothing
            },
            Ok((secret, version)) => {
                if copy {
                    // The other place a value is read out: `y` pressed with
                    // nothing on screen, copying blind.
                    return AppAction::Copy {
                        text: secret.expose().to_owned(),
                        label: copied_label(vault, name),
                    };
                }
                if still_here {
                    self.revealed = Some(
                        Revealed {
                            vault: vault.to_owned(),
                            name: name.to_owned(),
                            version,
                            value: secret,
                            at: now,
                        },
                    );
                }
                AppAction::Nothing
            },
        }
    }

    /// One turn of the clock: drops a value that has run out, and asks for
    /// the versions of a row the cursor has settled on.
    pub fn tick(&mut self, store: &AzureStore, now: u64) -> (r: Option<Request>)
        ensures
            (final(self)@, super::screen::azure_said(r)) == old(self)@.ticked(*store, now),
    {
        let gone = match &self.revealed {
            Some(held) => held.expired(now),
            None => false,
        };
        if gone {
            self.revealed = None;
        }
        let here: usize = self.cursor.index;
        match self.selected(store) {
            None => None,
            Some(row) => {
                let waited = match self.rested {
                    Some((at, since)) => if at == here {
                        Some(since)
                    } else {
                        None
                    },
                    None => None,
                };
                match waited {
                    None => {
                        self.rested = Some((here, now));
                        None
                    },
                    Some(since) => {
                        if millis_since(since, now) < REST || store.has_versions(
                            row.vault.as_str(),
                            row.name.as_str(),
                        ) || has_pair(&self.asked, row.vault.as_str(), row.name.as_str()) {
                            return None;
                        }
                        let ghost before = pairs(self.asked@);
                        self.asked.push((row.vault.clone(), row.name.clone()));
                        proof {
                            assert(pairs(self.asked@) =~= before.push(names(*row)));
                        }
                        Some(
                            Request::Versions { vault: row.vault.clone(), name: row.name.clone() },
                        )
                    },
                }
            },
        }
    }

    /// Whether the run loop should wake every second: something is counting
    /// down, or something is being waited for.
    #[must_use]
    pub fn is_ticking(&self) -> (r: bool)
        ensures
            r == (self@.revealed is Some || self@.reading is Some),
    {
        self.revealed.is_some() || self.reading.is_some()
    }

    /// Whether the cursor has landed somewhere in the last [`REST`], so the
    /// loop comes back in time to ask about it. It closes when the window
    /// does.
    #[must_use]
    pub fn is_resting(&self, now: u64) -> (r: bool)
        ensures
            r == resting(self@.rested, now),
    {
        match self.rested {
            Some((_, since)) => millis_since(since, now) < REST,
            None => false,
        }
    }

    /// `r`, or a tab switch: the value goes. Rows that are about to be read
    /// again should not be sitting next to a value read before them, and a
    /// tab switch is looking away.
    pub fn on_refresh(&mut self)
        ensures
            final(self)@ == old(self)@.looked_away(),
    {
        self.revealed = None;
        self.reading = None;
        self.refusal = None;
        self.asked.clear();
        proof {
            assert(pairs(self.asked@) =~= Seq::<(Seq<char>, Seq<char>)>::empty());
        }
    }
}

/// Whether a cursor landed in the last rest interval.
pub open spec fn resting(rested: Option<(usize, u64)>, now: u64) -> bool {
    rested matches Some((_, since)) && elapsed(since, now) < REST
}

/// What the tab's badge says.
pub open spec fn secrets_badge(store: AzureStore, now: Timestamp) -> Option<Seq<char>> {
    let count = running_out_count(store.secrets@, now);
    if count > 0 {
        Some("⚠ "@ + decimal(count as nat))
    } else {
        None
    }
}

fn copied_label(vault: &str, name: &str) -> (r: String)
    ensures
        r@ == "Copied value of "@ + name@ + " ("@ + vault@ + ")"@,
{
    let mut label = "Copied value of ".to_owned();
    label.push_str(name);
    label.push_str(" (");
    label.push_str(vault);
    label.push_str(")");
    label
}

// ---------------------------------------------------------------------------
// What the tab promises
// ---------------------------------------------------------------------------

/// A value on screen belongs to the row under the cursor.
pub open spec fn value_is_the_rows(screen: SecretsView, store: AzureStore) -> bool {
    screen.revealed matches Some(held) ==> screen.identity(store) == Some((held.vault, held.name))
}

/// Whatever key is pressed, a value on screen stays with its own row: it goes
/// as soon as the cursor is on another.
pub proof fn law_a_value_never_stands_next_to_another_name(
    screen: SecretsView,
    shell: ShellView,
    store: AzureStore,
    key: KeyEvent,
)
    requires
        value_is_the_rows(screen, store),
    ensures
        value_is_the_rows(screen.pressed(shell, store, key).0, store),
{
}

/// The same of a click and of the wheel.
pub proof fn law_a_click_takes_the_value_along(
    screen: SecretsView,
    store: AzureStore,
    target: Target,
    over: Option<Target>,
    delta: int,
)
    requires
        value_is_the_rows(screen, store),
    ensures
        value_is_the_rows(screen.clicked(target), store),
        value_is_the_rows(screen.wheeled(over, delta), store),
{
}

/// A value that arrives is shown only next to its own row.
pub proof fn law_a_late_value_is_dropped(
    screen: SecretsView,
    shell: ShellView,
    store: AzureStore,
    vault: Seq<char>,
    name: Seq<char>,
    result: Result<(Seq<char>, Seq<char>), Seq<char>>,
    now: u64,
)
    requires
        value_is_the_rows(screen, store),
    ensures
        value_is_the_rows(screen.answered(shell, store, vault, name, result, now).0, store),
        screen.identity(store) != Some((vault, name)) ==> screen.answered(
            shell,
            store,
            vault,
            name,
            result,
            now,
        ).0.revealed == screen.revealed,
{
}

/// An answer to something else than what was asked changes nothing.
pub proof fn law_a_stale_answer_cancels_nothing(
    screen: SecretsView,
    shell: ShellView,
    store: AzureStore,
    vault: Seq<char>,
    name: Seq<char>,
    result: Result<(Seq<char>, Seq<char>), Seq<char>>,
    now: u64,
)
    requires
        !(screen.reading matches Some(asked) && asked.vault == vault && asked.name == name),
    ensures
        screen.answered(shell, store, vault, name, result, now) == (
            screen,
            shell,
            ActionView::Nothing,
        ),
{
}

/// Copying a value that is not on screen does not put it there.
pub proof fn law_copying_blind_shows_nothing(
    screen: SecretsView,
    shell: ShellView,
    store: AzureStore,
    vault: Seq<char>,
    name: Seq<char>,
    result: Result<(Seq<char>, Seq<char>), Seq<char>>,
    now: u64,
)
    requires
        screen.reading matches Some(asked) && asked.copy,
    ensures
        screen.answered(shell, store, vault, name, result, now).0.revealed == screen.revealed,
{
}

/// What is said of a copied value says nothing of the value: two values are
/// told of alike.
pub proof fn law_a_label_says_nothing_of_the_value(
    screen: SecretsView,
    shell: ShellView,
    store: AzureStore,
    vault: Seq<char>,
    name: Seq<char>,
    one: (Seq<char>, Seq<char>),
    other: (Seq<char>, Seq<char>),
    now: u64,
)
    requires
        one.1 == other.1,
    ensures
        ({
            let (_, said, action) = screen.answered(shell, store, vault, name, Ok(one), now);
            let (_, also, twin) = screen.answered(shell, store, vault, name, Ok(other), now);
            &&& said == also
            &&& match (action, twin) {
                (
                    ActionView::Copy { text, label },
                    ActionView::Copy { text: second, label: same },
                ) => text == one.0 && second == other.0 && label == same,
                _ => action == twin,
            }
        }),
{
}

/// `r` and a tab switch leave no value, none on its way, and no refusal.
pub proof fn law_looking_away_drops_the_value(screen: SecretsView)
    ensures
        screen.looked_away().revealed is None,
        screen.looked_away().reading is None,
        screen.looked_away().refusal is None,
{
}

/// The clock takes a value off the screen sixty seconds after it arrived, and
/// until then leaves it.
pub proof fn law_the_clock_takes_a_value_off(screen: SecretsView, store: AzureStore, now: u64)
    requires
        screen.revealed matches Some(held) && held.at <= now,
    ensures
        screen.ticked(store, now).0.revealed is Some <==> now - screen.revealed->0.at < 60_000,
{
}

/// The versions of a row are asked for once, and only once the cursor has
/// rested on it.
pub proof fn law_versions_are_asked_for_once(screen: SecretsView, store: AzureStore, now: u64)
    ensures
        screen.ticked(store, now).1 is Some ==> {
            let row = screen.selected(store)->0;
            &&& screen.selected(store) is Some
            &&& !screen.asked.contains(names(row))
            &&& screen.ticked(store, now).0.asked.contains(names(row))
            &&& screen.rested matches Some((at, since)) && at == screen.cursor.index
                && elapsed(since, now) >= REST
        },
{
    if screen.ticked(store, now).1 is Some {
        let row = screen.selected(store)->0;
        let asked = screen.asked.push(names(row));
        assert(asked[asked.len() - 1] == names(row));
    }
}

} // verus!
