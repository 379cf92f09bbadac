//! One list's own state — cursor, search box, sort, layout, and the rows the
//! query leaves — over any kind of row.
//!
//! Every tab keeps four of these, one per kind, so switching kinds and back
//! finds the cursor where it was left.

use std::cmp::Ordering;
use vstd::prelude::*;

use super::cursor::ListCursor;
use super::listing::{OrderKey, Rows, RowsView, Searchable};
use crate::columns::{columns_for, kind_layout, sort_after, ColumnConfig, ColumnId, TableLayout};
use crate::filter::{contains, keys_of, mentions, Query};
use crate::input::{InputView, TextInput};
use crate::kube::{ConfigMap, Container, K8sEvent, Kind, Pod, SecretMeta};
use crate::order::{
    cmp_ignore_ascii_case, compare_filled, compare_numbers, compare_sizes, compare_stamps, filled, flip,
    lemma_order_by_cell_total, lemma_total_by, lemma_total_then, order_by_cell, order_by_name,
    then_order, then_with, Arrangement, Cell,
};
use crate::text::{decimal, equal, int_of, number, small_of, usize_of};
use crate::timestamp::stamp_backwards;

verus! {

/// What one kind of row has to say about itself for the list to search,
/// sort and keep a cursor on it.
pub trait Row: Sized {
    /// The `key:` filters this kind knows.
    spec fn known_keys() -> Seq<Seq<char>>;

    /// The column the list opens sorted by.
    spec fn opening_sort() -> ColumnId;

    /// Every cell a person might type part of.
    spec fn searched(&self) -> Seq<char>;

    /// Whether the row answers one `key:value` of a query.
    spec fn answers(&self, key: Seq<char>, value: Seq<char>) -> bool;

    /// What the row says in one column, for sorting by it.
    spec fn cell(&self, by: ColumnId) -> Cell;

    /// What tells this row from every other.
    spec fn name_of(&self) -> Seq<char>;

    /// The `key:` filters this kind knows. Everything else typed is a word.
    fn schema() -> (r: Vec<&'static str>)
        ensures
            keys_of(r@) == Self::known_keys(),
    ;

    /// The column the list opens sorted by.
    fn default_sort() -> (r: ColumnId)
        ensures
            r == Self::opening_sort(),
    ;

    /// Every cell a person might type part of, joined once per read rather
    /// than per keystroke.
    fn haystack(&self) -> (r: String)
        ensures
            r@ == self.searched(),
    ;

    /// Whether the row answers one `key:value` of a query.
    fn answers_field(&self, key: &str, value: &str) -> (r: bool)
        ensures
            r == self.answers(key@, value@),
    ;

    /// This row against another by one column, before the name breaks ties.
    /// The column's order, turned when `descending`. A row with nothing in
    /// the column sorts last whichever way it is turned.
    fn compare(&self, other: &Self, by: ColumnId, descending: bool) -> (r: Ordering)
        ensures
            r == order_by_cell(self.cell(by), other.cell(by), descending),
    ;

    /// What tells this row from every other, for putting the cursor back
    /// after a read.
    fn identity(&self) -> (r: String)
        ensures
            r@ == self.name_of(),
    ;
}

/// Whether a row answers every `key:value` of a query.
pub open spec fn row_answers<T: Row>(row: T, fields: Seq<(Seq<char>, Seq<char>)>) -> bool {
    forall|i: int| 0 <= i < fields.len() ==> row.answers((#[trigger] fields[i]).0, fields[i].1)
}

/// Whether the row answers every `key:value` in the query. The words are the
/// haystack's job.
#[must_use]
pub fn passes<T: Row>(row: &T, query: &Query) -> (r: bool)
    ensures
        r == row_answers(*row, query@.fields),
{
    let mut i: usize = 0;
    while i < query.fields.len()
        invariant
            i <= query.fields@.len(),
            forall|k: int|
                0 <= k < i ==> row.answers((#[trigger] query@.fields[k]).0, query@.fields[k].1),
        decreases query.fields@.len() - i,
    {
        let field = &query.fields[i];
        if !row.answers_field(field.0.as_str(), field.1.as_str()) {
            proof {
                assert(!row.answers(query@.fields[i as int].0, query@.fields[i as int].1));
            }
            return false;
        }
        i = i + 1;
    }
    true
}

/// A namespace and a name, which is what a row is told apart by.
pub open spec fn slashed(namespace: Seq<char>, name: Seq<char>) -> Seq<char> {
    namespace + "/"@ + name
}

fn slash(namespace: &str, name: &str) -> (r: String)
    ensures
        r@ == slashed(namespace@, name@),
{
    let mut text = namespace.to_owned();
    text.push_str("/");
    text.push_str(name);
    text
}

// ---------------------------------------------------------------------------
// Pods
// ---------------------------------------------------------------------------

/// The images of some containers, each after a blank.
pub open spec fn images(containers: Seq<Container>) -> Seq<char>
    decreases containers.len(),
{
    if containers.len() == 0 {
        Seq::empty()
    } else {
        images(containers.drop_last()) + " "@ + containers.last().image@
    }
}

/// The first container's image, or nothing.
pub open spec fn first_image(containers: Seq<Container>) -> Seq<char> {
    if containers.len() == 0 {
        ""@
    } else {
        containers[0].image@
    }
}

fn image_of(pod: &Pod) -> (r: &str)
    ensures
        r@ == first_image(pod.containers@),
{
    if pod.containers.len() == 0 {
        ""
    } else {
        pod.containers[0].image.as_str()
    }
}

impl Row for Pod {
    open spec fn known_keys() -> Seq<Seq<char>> {
        seq!["name"@, "ns"@, "status"@, "owner"@, "app"@, "node"@]
    }

    open spec fn opening_sort() -> ColumnId {
        ColumnId::Name
    }

    open spec fn searched(&self) -> Seq<char> {
        self.key.name@ + " "@ + self.key.namespace@ + " "@ + self.status@ + " "@
            + self.owner_text() + " "@ + self.node@ + images(self.containers@)
    }

    open spec fn answers(&self, key: Seq<char>, value: Seq<char>) -> bool {
        if key == "name"@ {
            mentions(self.key.name@, value)
        } else if key == "ns"@ {
            mentions(self.key.namespace@, value)
        } else if key == "status"@ {
            mentions(self.status@, value)
        } else if key == "owner"@ {
            mentions(self.owner_text(), value)
        } else if key == "app"@ {
            self.app matches Some(app) && mentions(app@, value)
        } else if key == "node"@ {
            mentions(self.node@, value)
        } else {
            true
        }
    }

    open spec fn cell(&self, by: ColumnId) -> Cell {
        match by {
            ColumnId::Age => Cell::Known(stamp_backwards(self.created)),
            ColumnId::Name => filled(self.key.name@),
            ColumnId::Namespace => filled(self.key.namespace@),
            ColumnId::Ready => Cell::Pair(small_of(self.ready.0), small_of(self.ready.1)),
            ColumnId::Status => filled(self.status@),
            ColumnId::Restarts => Cell::Number(small_of(self.restarts)),
            ColumnId::Node => filled(self.node@),
            ColumnId::Ip => filled(self.ip@),
            ColumnId::Owner => filled(self.owner_text()),
            ColumnId::Image => filled(first_image(self.containers@)),
            _ => Cell::Blank,
        }
    }

    open spec fn name_of(&self) -> Seq<char> {
        slashed(self.key.namespace@, self.key.name@)
    }

    fn schema() -> (r: Vec<&'static str>) {
        let r = vec!["name", "ns", "status", "owner", "app", "node"];
        proof {
            assert(keys_of(r@) =~= Self::known_keys());
        }
        r
    }

    fn default_sort() -> (r: ColumnId) {
        ColumnId::Name
    }

    fn haystack(&self) -> (r: String) {
        let mut text = self.key.name.clone();
        text.push_str(" ");
        text.push_str(self.key.namespace.as_str());
        text.push_str(" ");
        text.push_str(self.status.as_str());
        text.push_str(" ");
        text.push_str(self.owner_name());
        text.push_str(" ");
        text.push_str(self.node.as_str());
        let ghost head = text@;
        let mut i: usize = 0;
        proof {
            assert(head + images(self.containers@.take(0)) =~= head);
        }
        while i < self.containers.len()
            invariant
                i <= self.containers@.len(),
                text@ == head + images(self.containers@.take(usize_of(i))),
            decreases self.containers@.len() - i,
        {
            proof {
                assert(self.containers@.take(i + 1).drop_last() =~= self.containers@.take(
                    usize_of(i),
                ));
            }
            text.push_str(" ");
            text.push_str(self.containers[i].image.as_str());
            proof {
                assert(text@ =~= head + images(self.containers@.take(i + 1)));
            }
            i = i + 1;
        }
        proof {
            assert(self.containers@.take(usize_of(i)) =~= self.containers@);
        }
        text
    }

    fn answers_field(&self, key: &str, value: &str) -> (r: bool) {
        if equal(key, "name") {
            contains(self.key.name.as_str(), value)
        } else if equal(key, "ns") {
            contains(self.key.namespace.as_str(), value)
        } else if equal(key, "status") {
            contains(self.status.as_str(), value)
        } else if equal(key, "owner") {
            contains(self.owner_name(), value)
        } else if equal(key, "app") {
            match &self.app {
                Some(app) => contains(app.as_str(), value),
                None => false,
            }
        } else if equal(key, "node") {
            contains(self.node.as_str(), value)
        } else {
            true
        }
    }

    fn compare(&self, other: &Self, by: ColumnId, descending: bool) -> (r: Ordering) {
        match by {
            // The newest first.
            ColumnId::Age => compare_stamps(self.created, other.created, !descending),
            ColumnId::Name => compare_filled(
                self.key.name.as_str(),
                other.key.name.as_str(),
                descending,
            ),
            ColumnId::Namespace => compare_filled(
                self.key.namespace.as_str(),
                other.key.namespace.as_str(),
                descending,
            ),
            // How much of a pod is up first, then how big it is: `0/1` before
            // `1/2` before `2/2`.
            ColumnId::Ready => flip(
                then_with(
                    compare_small(self.ready.0, other.ready.0),
                    compare_small(self.ready.1, other.ready.1),
                ),
                descending,
            ),
            ColumnId::Status => compare_filled(
                self.status.as_str(),
                other.status.as_str(),
                descending,
            ),
            ColumnId::Restarts => flip(compare_small(self.restarts, other.restarts), descending),
            ColumnId::Node => compare_filled(self.node.as_str(), other.node.as_str(), descending),
            ColumnId::Ip => compare_filled(self.ip.as_str(), other.ip.as_str(), descending),
            ColumnId::Owner => compare_filled(self.owner_name(), other.owner_name(), descending),
            ColumnId::Image => compare_filled(image_of(self), image_of(other), descending),
            _ => Ordering::Equal,
        }
    }

    fn identity(&self) -> (r: String) {
        slash(self.key.namespace.as_str(), self.key.name.as_str())
    }
}

fn compare_small(a: u32, b: u32) -> (r: Ordering)
    ensures
        r == crate::order::order_by_number(small_of(a), small_of(b)),
{
    if a < b {
        Ordering::Less
    } else if a == b {
        Ordering::Equal
    } else {
        Ordering::Greater
    }
}

// ---------------------------------------------------------------------------
// Events
// ---------------------------------------------------------------------------

impl Row for K8sEvent {
    open spec fn known_keys() -> Seq<Seq<char>> {
        seq!["type"@, "reason"@, "object"@, "kind"@, "message"@, "ns"@]
    }

    open spec fn opening_sort() -> ColumnId {
        ColumnId::Age
    }

    open spec fn searched(&self) -> Seq<char> {
        self.kind@ + " "@ + self.reason@ + " "@ + self.object@.slashed() + " "@ + self.message@
            + " "@ + self.namespace@
    }

    open spec fn answers(&self, key: Seq<char>, value: Seq<char>) -> bool {
        if key == "type"@ {
            mentions(self.kind@, value)
        } else if key == "reason"@ {
            mentions(self.reason@, value)
        } else if key == "object"@ {
            mentions(self.object.name@, value)
        } else if key == "kind"@ {
            mentions(self.object.kind@, value)
        } else if key == "message"@ {
            mentions(self.message@, value)
        } else if key == "ns"@ {
            mentions(self.namespace@, value)
        } else {
            true
        }
    }

    open spec fn cell(&self, by: ColumnId) -> Cell {
        match by {
            ColumnId::Age => Cell::Known(stamp_backwards(self.last)),
            ColumnId::K8sType => filled(self.kind@),
            ColumnId::Reason => filled(self.reason@),
            ColumnId::Object => filled(self.object.name@),
            // The most times first.
            ColumnId::Count => Cell::Number(-int_of(self.count)),
            ColumnId::Message => filled(self.message@),
            _ => Cell::Blank,
        }
    }

    open spec fn name_of(&self) -> Seq<char> {
        slashed(self.namespace@, self.name@)
    }

    fn schema() -> (r: Vec<&'static str>) {
        let r = vec!["type", "reason", "object", "kind", "message", "ns"];
        proof {
            assert(keys_of(r@) =~= Self::known_keys());
        }
        r
    }

    fn default_sort() -> (r: ColumnId) {
        ColumnId::Age
    }

    fn haystack(&self) -> (r: String) {
        let mut text = self.kind.clone();
        text.push_str(" ");
        text.push_str(self.reason.as_str());
        text.push_str(" ");
        text.push_str(self.object.slash().as_str());
        text.push_str(" ");
        text.push_str(self.message.as_str());
        text.push_str(" ");
        text.push_str(self.namespace.as_str());
        text
    }

    fn answers_field(&self, key: &str, value: &str) -> (r: bool) {
        if equal(key, "type") {
            contains(self.kind.as_str(), value)
        } else if equal(key, "reason") {
            contains(self.reason.as_str(), value)
        } else if equal(key, "object") {
            contains(self.object.name.as_str(), value)
        } else if equal(key, "kind") {
            contains(self.object.kind.as_str(), value)
        } else if equal(key, "message") {
            contains(self.message.as_str(), value)
        } else if equal(key, "ns") {
            contains(self.namespace.as_str(), value)
        } else {
            true
        }
    }

    fn compare(&self, other: &Self, by: ColumnId, descending: bool) -> (r: Ordering) {
        match by {
            ColumnId::Age => compare_stamps(self.last, other.last, !descending),
            ColumnId::K8sType => compare_filled(
                self.kind.as_str(),
                other.kind.as_str(),
                descending,
            ),
            ColumnId::Reason => compare_filled(
                self.reason.as_str(),
                other.reason.as_str(),
                descending,
            ),
            ColumnId::Object => compare_filled(
                self.object.name.as_str(),
                other.object.name.as_str(),
                descending,
            ),
            ColumnId::Count => flip(compare_numbers(other.count, self.count), descending),
            ColumnId::Message => compare_filled(
                self.message.as_str(),
                other.message.as_str(),
                descending,
            ),
            _ => Ordering::Equal,
        }
    }

    fn identity(&self) -> (r: String) {
        slash(self.namespace.as_str(), self.name.as_str())
    }
}

// ---------------------------------------------------------------------------
// Configmaps
// ---------------------------------------------------------------------------

/// The keys of some pairs, each after a blank.
pub open spec fn keys_said<V>(data: Seq<(String, V)>) -> Seq<char>
    decreases data.len(),
{
    if data.len() == 0 {
        Seq::empty()
    } else {
        keys_said(data.drop_last()) + " "@ + data.last().0@
    }
}

/// Whether one of the keys holds what was typed.
pub open spec fn has_key<V>(data: Seq<(String, V)>, value: Seq<char>) -> bool {
    exists|i: int| 0 <= i < data.len() && mentions((#[trigger] data[i]).0@, value)
}

fn push_keys<V>(text: &mut String, data: &Vec<(String, V)>)
    ensures
        final(text)@ == old(text)@ + keys_said(data@),
{
    let ghost head = text@;
    let mut i: usize = 0;
    proof {
        assert(head + keys_said(data@.take(0)) =~= head);
    }
    while i < data.len()
        invariant
            i <= data@.len(),
            text@ == head + keys_said(data@.take(usize_of(i))),
        decreases data@.len() - i,
    {
        proof {
            assert(data@.take(i + 1).drop_last() =~= data@.take(usize_of(i)));
        }
        text.push_str(" ");
        text.push_str(data[i].0.as_str());
        proof {
            assert(text@ =~= head + keys_said(data@.take(i + 1)));
        }
        i = i + 1;
    }
    proof {
        assert(data@.take(usize_of(i)) =~= data@);
    }
}

fn any_key<V>(data: &Vec<(String, V)>, value: &str) -> (r: bool)
    ensures
        r == has_key(data@, value@),
{
    let mut i: usize = 0;
    while i < data.len()
        invariant
            i <= data@.len(),
            forall|k: int| 0 <= k < i ==> !mentions((#[trigger] data@[k]).0@, value@),
        decreases data@.len() - i,
    {
        if contains(data[i].0.as_str(), value) {
            return true;
        }
        i = i + 1;
    }
    false
}

impl Row for ConfigMap {
    open spec fn known_keys() -> Seq<Seq<char>> {
        seq!["name"@, "ns"@, "key"@]
    }

    open spec fn opening_sort() -> ColumnId {
        ColumnId::Name
    }

    open spec fn searched(&self) -> Seq<char> {
        self.name@ + " "@ + self.namespace@ + keys_said(self.data@)
    }

    open spec fn answers(&self, key: Seq<char>, value: Seq<char>) -> bool {
        if key == "name"@ {
            mentions(self.name@, value)
        } else if key == "ns"@ {
            mentions(self.namespace@, value)
        } else if key == "key"@ {
            has_key(self.data@, value)
        } else {
            true
        }
    }

    open spec fn cell(&self, by: ColumnId) -> Cell {
        match by {
            ColumnId::Age => Cell::Known(stamp_backwards(self.created)),
            ColumnId::Name => filled(self.name@),
            ColumnId::Namespace => filled(self.namespace@),
            // The most keys first.
            ColumnId::Keys => Cell::Number(-(self.data@.len() as int)),
            _ => Cell::Blank,
        }
    }

    open spec fn name_of(&self) -> Seq<char> {
        slashed(self.namespace@, self.name@)
    }

    fn schema() -> (r: Vec<&'static str>) {
        let r = vec!["name", "ns", "key"];
        proof {
            assert(keys_of(r@) =~= Self::known_keys());
        }
        r
    }

    fn default_sort() -> (r: ColumnId) {
        ColumnId::Name
    }

    fn haystack(&self) -> (r: String) {
        let mut text = self.name.clone();
        text.push_str(" ");
        text.push_str(self.namespace.as_str());
        push_keys(&mut text, &self.data);
        text
    }

    fn answers_field(&self, key: &str, value: &str) -> (r: bool) {
        if equal(key, "name") {
            contains(self.name.as_str(), value)
        } else if equal(key, "ns") {
            contains(self.namespace.as_str(), value)
        } else if equal(key, "key") {
            any_key(&self.data, value)
        } else {
            true
        }
    }

    fn compare(&self, other: &Self, by: ColumnId, descending: bool) -> (r: Ordering) {
        match by {
            ColumnId::Age => compare_stamps(self.created, other.created, !descending),
            ColumnId::Name => compare_filled(self.name.as_str(), other.name.as_str(), descending),
            ColumnId::Namespace => compare_filled(
                self.namespace.as_str(),
                other.namespace.as_str(),
                descending,
            ),
            ColumnId::Keys => flip(compare_sizes(other.data.len(), self.data.len()), descending),
            _ => Ordering::Equal,
        }
    }

    fn identity(&self) -> (r: String) {
        slash(self.namespace.as_str(), self.name.as_str())
    }
}

// ---------------------------------------------------------------------------
// Secrets
// ---------------------------------------------------------------------------

impl Row for SecretMeta {
    open spec fn known_keys() -> Seq<Seq<char>> {
        seq!["name"@, "ns"@, "type"@, "key"@]
    }

    open spec fn opening_sort() -> ColumnId {
        ColumnId::Name
    }

    open spec fn searched(&self) -> Seq<char> {
        self.name@ + " "@ + self.namespace@ + " "@ + self.kind@ + keys_said(self.keys@)
    }

    open spec fn answers(&self, key: Seq<char>, value: Seq<char>) -> bool {
        if key == "name"@ {
            mentions(self.name@, value)
        } else if key == "ns"@ {
            mentions(self.namespace@, value)
        } else if key == "type"@ {
            mentions(self.kind@, value)
        } else if key == "key"@ {
            has_key(self.keys@, value)
        } else {
            true
        }
    }

    open spec fn cell(&self, by: ColumnId) -> Cell {
        match by {
            ColumnId::Age => Cell::Known(stamp_backwards(self.created)),
            ColumnId::Name => filled(self.name@),
            ColumnId::Namespace => filled(self.namespace@),
            ColumnId::K8sType => filled(self.kind@),
            ColumnId::Keys => Cell::Number(-(self.keys@.len() as int)),
            _ => Cell::Blank,
        }
    }

    open spec fn name_of(&self) -> Seq<char> {
        slashed(self.namespace@, self.name@)
    }

    fn schema() -> (r: Vec<&'static str>) {
        let r = vec!["name", "ns", "type", "key"];
        proof {
            assert(keys_of(r@) =~= Self::known_keys());
        }
        r
    }

    fn default_sort() -> (r: ColumnId) {
        ColumnId::Name
    }

    fn haystack(&self) -> (r: String) {
        let mut text = self.name.clone();
        text.push_str(" ");
        text.push_str(self.namespace.as_str());
        text.push_str(" ");
        text.push_str(self.kind.as_str());
        push_keys(&mut text, &self.keys);
        text
    }

    fn answers_field(&self, key: &str, value: &str) -> (r: bool) {
        if equal(key, "name") {
            contains(self.name.as_str(), value)
        } else if equal(key, "ns") {
            contains(self.namespace.as_str(), value)
        } else if equal(key, "type") {
            contains(self.kind.as_str(), value)
        } else if equal(key, "key") {
            any_key(&self.keys, value)
        } else {
            true
        }
    }

    fn compare(&self, other: &Self, by: ColumnId, descending: bool) -> (r: Ordering) {
        match by {
            ColumnId::Age => compare_stamps(self.created, other.created, !descending),
            ColumnId::Name => compare_filled(self.name.as_str(), other.name.as_str(), descending),
            ColumnId::Namespace => compare_filled(
                self.namespace.as_str(),
                other.namespace.as_str(),
                descending,
            ),
            ColumnId::K8sType => compare_filled(
                self.kind.as_str(),
                other.kind.as_str(),
                descending,
            ),
            ColumnId::Keys => flip(compare_sizes(other.keys.len(), self.keys.len()), descending),
            _ => Ordering::Equal,
        }
    }

    fn identity(&self) -> (r: String) {
        slash(self.namespace.as_str(), self.name.as_str())
    }
}

// ---------------------------------------------------------------------------
// Rows of one kind, sorted by one column
// ---------------------------------------------------------------------------

/// Rows of one kind and the column they are sorted by.
pub struct Sorted<'a, T> {
    pub rows: &'a Vec<T>,
    pub by: ColumnId,
    pub descending: bool,
}

impl<'a, T: Row> Arrangement for Sorted<'a, T> {
    open spec fn size(&self) -> int {
        self.rows@.len() as int
    }

    /// By the column, and then by name.
    open spec fn rank(&self, a: int, b: int) -> Ordering {
        then_order(
            order_by_cell(self.rows@[a].cell(self.by), self.rows@[b].cell(self.by), self.descending),
            order_by_name(self.rows@[a].name_of(), self.rows@[b].name_of()),
        )
    }

    proof fn rank_is_total(&self) {
        let cells = |x: Cell, y: Cell| order_by_cell(x, y, self.descending);
        let names = |x: Cell, y: Cell| order_by_cell(x, y, false);
        let first = |a: int, b: int|
            order_by_cell(self.rows@[a].cell(self.by), self.rows@[b].cell(self.by), self.descending);
        let second = |a: int, b: int|
            order_by_name(self.rows@[a].name_of(), self.rows@[b].name_of());
        lemma_order_by_cell_total(self.descending);
        lemma_order_by_cell_total(false);
        lemma_total_by(cells, |a: int| self.rows@[a].cell(self.by), first);
        lemma_total_by(names, |a: int| Cell::Name(self.rows@[a].name_of()), second);
        lemma_total_then(first, second, |a: int, b: int| self.rank(a, b));
    }

    fn compare_rows(&self, a: usize, b: usize) -> (r: Ordering) {
        let left = &self.rows[a];
        let right = &self.rows[b];
        let ordering = left.compare(right, self.by, self.descending);
        then_with(
            ordering,
            cmp_ignore_ascii_case(left.identity().as_str(), right.identity().as_str()),
        )
    }
}

impl<'a, T: Row> Searchable for Sorted<'a, T> {
    open spec fn searched(&self, at: int) -> Seq<char> {
        self.rows@[at].searched()
    }

    open spec fn answers(&self, fields: Seq<(Seq<char>, Seq<char>)>, at: int) -> bool {
        row_answers(self.rows@[at], fields)
    }

    open spec fn filter_keys(&self) -> Seq<Seq<char>> {
        T::known_keys()
    }

    fn searched_text(&self, at: usize) -> (r: String) {
        self.rows[at].haystack()
    }

    fn answers_query(&self, query: &Query, at: usize) -> (r: bool) {
        passes(&self.rows[at], query)
    }

    fn filter_schema(&self) -> (r: Vec<&'static str>) {
        T::schema()
    }
}

// ---------------------------------------------------------------------------
// One list
// ---------------------------------------------------------------------------

/// What a list holds.
pub struct ListView {
    pub kind: Kind,
    pub cursor: ListCursor,
    pub layout: Seq<ColumnConfig>,
    pub input: InputView,
    pub sort: ColumnId,
    pub descending: bool,
    pub rows: RowsView,
    pub available: u16,
}

/// Where among the shown rows the one of that name is, or how many are shown
/// where it is not among them.
pub open spec fn shown_at<T: Row>(visible: Seq<usize>, rows: Seq<T>, name: Seq<char>) -> int
    decreases visible.len(),
{
    if visible.len() == 0 || (visible[0] < rows.len() && rows[visible[0] as int].name_of()
        == name) {
        0
    } else {
        1 + shown_at(visible.skip(1), rows, name)
    }
}

proof fn lemma_shown_at<T: Row>(visible: Seq<usize>, rows: Seq<T>, name: Seq<char>, i: int)
    requires
        0 <= i <= visible.len(),
        forall|k: int|
            0 <= k < i ==> !(#[trigger] visible[k] < rows.len() && rows[visible[k] as int].name_of()
                == name),
        i < visible.len() ==> visible[i] < rows.len() && rows[visible[i] as int].name_of() == name,
    ensures
        shown_at(visible, rows, name) == i,
    decreases i,
{
    if i > 0 {
        assert(visible[0] == visible[0]);
        assert forall|k: int| 0 <= k < i - 1 implies !(#[trigger] visible.skip(1)[k] < rows.len()
            && rows[visible.skip(1)[k] as int].name_of() == name) by {
            assert(visible.skip(1)[k] == visible[k + 1]);
        }
        lemma_shown_at(visible.skip(1), rows, name, i - 1);
    }
}

impl ListView {
    /// A list as it opens.
    pub open spec fn opening(kind: Kind, sort: ColumnId) -> Self {
        ListView {
            kind,
            cursor: ListCursor::at_rest(),
            layout: kind_layout(kind),
            input: InputView::empty(),
            sort,
            descending: false,
            rows: RowsView::empty(),
            available: 0,
        }
    }

    /// The row under the cursor, by its place among the rows.
    pub open spec fn selected(self) -> Option<usize> {
        if self.cursor.index < self.rows.visible.len() {
            Some(self.rows.visible[self.cursor.index as int])
        } else {
            None
        }
    }

    /// What the shown rows are worked out from.
    pub open spec fn order_key(self, count: usize) -> OrderKey {
        (self.sort, self.descending, count)
    }

    /// The list after a look at its rows.
    #[verifier::opaque]
    pub open spec fn refiltered<T: Row>(self, rows: &Vec<T>) -> Self {
        let table = Sorted { rows, by: self.sort, descending: self.descending };
        let key = self.order_key(rows.len());
        let now = self.rows.refreshed(&table, key, self.input.text);
        ListView {
            rows: now,
            cursor: if self.rows.rebuilt(key, self.input.text) {
                self.cursor.clamped(now.visible.len() as usize)
            } else {
                self.cursor
            },
            ..self
        }
    }

    /// With the cursor on the row of that name, if it is shown.
    pub open spec fn on_row<T: Row>(self, rows: &Vec<T>, name: Seq<char>) -> Self {
        let at = shown_at(self.rows.visible, rows@, name);
        if at < self.rows.visible.len() {
            ListView { cursor: self.cursor.focused(at as usize), ..self }
        } else {
            self.on_the_list()
        }
    }

    /// With the cursor kept on the list.
    pub open spec fn on_the_list(self) -> Self {
        ListView { cursor: self.cursor.clamped(self.rows.visible.len() as usize), ..self }
    }

    /// With the rows to be worked out again.
    pub open spec fn spoiled(self) -> Self {
        ListView { rows: self.rows.spoiled(), ..self }
    }

    /// After a read: back onto the same row if it is still shown.
    #[verifier::opaque]
    pub open spec fn kept<T: Row>(self, rows: &Vec<T>, was: Option<Seq<char>>) -> Self {
        let now = self.refiltered(rows);
        match was {
            Some(name) => now.on_row(rows, name),
            None => now.on_the_list(),
        }
    }

    /// Whether the row of that name is shown.
    pub open spec fn shows<T: Row>(self, rows: &Vec<T>, name: Seq<char>) -> bool {
        shown_at(self.rows.visible, rows@, name) < self.rows.visible.len()
    }

    /// With the query gone, looked at again.
    pub open spec fn unfiltered<T: Row>(self, rows: &Vec<T>) -> Self {
        (ListView { input: InputView::empty(), ..self }).refiltered(rows)
    }

    /// With the cursor on the row of that name, the query gone if that is
    /// what hid it; and whether it was found. With no such row the query stays.
    #[verifier::opaque]
    pub open spec fn selecting<T: Row>(self, rows: &Vec<T>, name: Seq<char>) -> (Self, bool) {
        let now = self.refiltered(rows);
        if now.shows(rows, name) {
            (now.on_row(rows, name), true)
        } else {
            let whole = now.unfiltered(rows);
            if whole.shows(rows, name) {
                (whole.on_row(rows, name), true)
            } else {
                (now, false)
            }
        }
    }

    /// Sorted by the next column on screen.
    #[verifier::opaque]
    pub open spec fn next_sorted(self) -> Self {
        match sort_after(self.layout, self.sort, self.available) {
            Some(next) => ListView { sort: next, descending: false, ..self },
            None => self,
        }
    }

    /// Sorted as a click on a header asks.
    #[verifier::opaque]
    pub open spec fn sorted_by(self, column: ColumnId, default: ColumnId) -> Self {
        if self.sort == column {
            if self.descending {
                ListView { sort: default, descending: false, ..self }
            } else {
                ListView { descending: true, ..self }
            }
        } else {
            ListView { sort: column, descending: false, ..self }
        }
    }

    /// With the cursor moved.
    #[verifier::opaque]
    pub open spec fn moved(self, delta: int, pages: bool) -> Self {
        let count = self.rows.visible.len() as usize;
        let rows = if pages {
            delta * self.cursor.scroll.step()
        } else {
            delta
        };
        ListView { cursor: self.cursor.moved(rows, count), ..self }
    }

    /// With the cursor where a row was clicked.
    #[verifier::opaque]
    pub open spec fn clicked(self, index: usize) -> Self {
        let count = self.rows.visible.len();
        let last = if count == 0 {
            0
        } else {
            count - 1
        };
        ListView {
            cursor: self.cursor.focused(
                if index < last {
                    index
                } else {
                    last as usize
                },
            ),
            ..self
        }
    }

    #[verifier::opaque]
    pub open spec fn wheeled(self, delta: int) -> Self {
        ListView {
            cursor: self.cursor.wheeled(delta, self.rows.visible.len() as usize),
            ..self
        }
    }

    /// What the bottom border says.
    #[verifier::opaque]
    pub open spec fn bordered(self, total: int) -> Seq<char> {
        border(self.rows.visible.len() as int, total, self.sort, self.descending)
    }
}

/// How many rows of how many.
pub open spec fn counted(shown: int, total: int) -> Seq<char> {
    if shown == total {
        decimal(total as nat)
    } else {
        decimal(shown as nat) + "/"@ + decimal(total as nat)
    }
}

/// The way a sort points.
pub open spec fn arrow(descending: bool) -> Seq<char> {
    if descending {
        "↓"@
    } else {
        "↑"@
    }
}

/// How many rows of how many, and the sort.
pub open spec fn border(shown: int, total: int, sort: ColumnId, descending: bool) -> Seq<char> {
    counted(shown, total) + " · "@ + sort.label_text() + " "@ + arrow(descending)
}

pub fn count_text(shown: usize, total: usize) -> (r: String)
    ensures
        r@ == counted(shown as int, total as int),
{
    if shown == total {
        number(total as u64)
    } else {
        let mut text = number(shown as u64);
        text.push_str("/");
        text.push_str(number(total as u64).as_str());
        text
    }
}

pub fn border_text(shown: usize, total: usize, sort: ColumnId, descending: bool) -> (r: String)
    ensures
        r@ == border(shown as int, total as int, sort, descending),
{
    let mut text = count_text(shown, total);
    text.push_str(" · ");
    text.push_str(sort.label());
    text.push_str(" ");
    text.push_str(
        if descending {
            "↓"
        } else {
            "↑"
        },
    );
    text
}

/// One list: its cursor, its search box, its sort, its columns, and the rows
/// the query leaves, in order.
pub struct ListState {
    pub kind: Kind,
    pub cursor: ListCursor,
    pub layout: TableLayout,
    pub input: TextInput,
    pub sort: ColumnId,
    pub descending: bool,
    /// Which rows are shown, in the order they are shown.
    pub rows: Rows,
    /// The width the columns were last solved at, which is what `S` walks.
    pub available: u16,
}

impl View for ListState {
    type V = ListView;

    open spec fn view(&self) -> ListView {
        ListView {
            kind: self.kind,
            cursor: self.cursor,
            layout: self.layout.columns@,
            input: self.input@,
            sort: self.sort,
            descending: self.descending,
            rows: self.rows@,
            available: self.available,
        }
    }
}

impl ListState {
    #[must_use]
    pub fn new(kind: Kind, default_sort: ColumnId) -> (r: Self)
        ensures
            r@ == ListView::opening(kind, default_sort),
    {
        ListState {
            kind,
            cursor: ListCursor::default(),
            layout: TableLayout { columns: columns_for(kind) },
            input: TextInput::default(),
            sort: default_sort,
            descending: false,
            rows: Rows::new(),
            available: 0,
        }
    }

    /// The rows on screen, as indices into the kind's rows.
    #[must_use]
    pub fn visible(&self) -> (r: &Vec<usize>)
        ensures
            r@ == self@.rows.visible,
    {
        &self.rows.visible
    }

    /// The index into the rows of the one under the cursor.
    #[must_use]
    pub fn selected_index(&self) -> (r: Option<usize>)
        ensures
            r == self@.selected(),
    {
        if self.cursor.index < self.rows.visible.len() {
            Some(self.rows.visible[self.cursor.index])
        } else {
            None
        }
    }

    /// Rebuilds the shown rows when the query, the sort or the rows have
    /// moved. Cheap to call every frame: it compares first, and a keystroke
    /// only ever re-runs the filter.
    pub fn refilter<T: Row>(&mut self, rows: &Vec<T>)
        ensures
            final(self)@ == old(self)@.refiltered(rows),
    {
        proof {
            reveal(ListView::refiltered);
        }
        let table = Sorted { rows, by: self.sort, descending: self.descending };
        let key: OrderKey = (self.sort, self.descending, rows.len());
        if self.rows.refresh(&table, key, self.input.text()) {
            self.cursor.clamp(self.rows.visible.len());
        }
    }

    /// Forces the next `refilter` to do the work, after the rows underneath
    /// have moved.
    pub fn invalidate(&mut self)
        ensures
            final(self)@ == old(self)@.spoiled(),
    {
        self.rows.invalidate();
    }

    fn find<T: Row>(&self, rows: &Vec<T>, identity: &str) -> (r: usize)
        ensures
            r == shown_at(self@.rows.visible, rows@, identity@),
            r <= self@.rows.visible.len(),
    {
        let visible = &self.rows.visible;
        let mut i: usize = 0;
        while i < visible.len()
            invariant
                i <= visible@.len(),
                visible@ == self@.rows.visible,
                forall|k: int|
                    0 <= k < i ==> !(#[trigger] visible@[k] < rows@.len()
                        && rows@[visible@[k] as int].name_of() == identity@),
            decreases visible@.len() - i,
        {
            let at: usize = visible[i];
            if at < rows.len() && equal(rows[at].identity().as_str(), identity) {
                proof {
                    lemma_shown_at(visible@, rows@, identity@, i as int);
                }
                return i;
            }
            i = i + 1;
        }
        proof {
            lemma_shown_at(visible@, rows@, identity@, i as int);
        }
        i
    }

    /// After a read: back onto the same row if it is still shown, wherever
    /// it now sorts.
    pub fn keep_cursor<T: Row>(&mut self, rows: &Vec<T>, was: Option<String>)
        ensures
            final(self)@ == old(self)@.kept(rows, crate::kube::said(was)),
    {
        proof {
            reveal(ListView::kept);
        }
        self.refilter(rows);
        if let Some(identity) = was {
            let at: usize = self.find(rows, identity.as_str());
            if at < self.rows.visible.len() {
                self.cursor.focus(at);
                return;
            }
        }
        self.cursor.clamp(self.rows.visible.len());
    }

    /// What the cursor is on, by identity rather than by position.
    #[must_use]
    pub fn cursor_identity<T: Row>(&self, rows: &Vec<T>) -> (r: Option<String>)
        ensures
            crate::kube::said(r) == row_name(self@.selected(), rows@),
    {
        match self.selected_index() {
            Some(at) => if at < rows.len() {
                Some(rows[at].identity())
            } else {
                None
            },
            None => None,
        }
    }

    /// Puts the cursor on the row with this identity, clearing the query if
    /// that is what hides it. Says whether it was found; where it was not, the
    /// query stays.
    pub fn select<T: Row>(&mut self, rows: &Vec<T>, identity: &str) -> (found: bool)
        ensures
            (final(self)@, found) == old(self)@.selecting(rows, identity@),
    {
        proof {
            reveal(ListView::selecting);
        }
        self.refilter(rows);
        let mut at: usize = self.find(rows, identity);
        if at == self.rows.visible.len() {
            let ghost now = self@;
            let input = self.input.copy();
            let shown = self.rows.copy();
            let cursor = self.cursor;
            self.input.clear();
            self.refilter(rows);
            at = self.find(rows, identity);
            if at == self.rows.visible.len() {
                self.input = input;
                self.rows = shown;
                self.cursor = cursor;
                proof {
                    reveal(ListView::refiltered);
                    assert(self@ == now);
                }
                return false;
            }
        }
        self.cursor.focus(at);
        true
    }

    /// `S`: the next column on screen.
    pub fn next_sort(&mut self)
        ensures
            final(self)@ == old(self)@.next_sorted(),
    {
        proof {
            reveal(ListView::next_sorted);
        }
        if let Some(next) = self.layout.next_sort(self.sort, self.available) {
            self.sort = next;
            self.descending = false;
        }
    }

    /// A header click: the same column cycles ascending, descending, then
    /// back to the default; a different column starts ascending.
    pub fn sort_by(&mut self, column: ColumnId, default: ColumnId)
        ensures
            final(self)@ == old(self)@.sorted_by(column, default),
    {
        proof {
            reveal(ListView::sorted_by);
        }
        if self.sort == column {
            if self.descending {
                self.sort = default;
                self.descending = false;
            } else {
                self.descending = true;
            }
        } else {
            self.sort = column;
            self.descending = false;
        }
    }

    /// What the bottom border says: how many rows of how many, and the sort.
    #[must_use]
    pub fn status(&self, total: usize) -> (r: String)
        ensures
            r@ == self@.bordered(total as int),
    {
        proof {
            reveal(ListView::bordered);
        }
        border_text(self.rows.visible.len(), total, self.sort, self.descending)
    }

    /// Remembers the width the columns were solved at, so `S` walks the
    /// columns that are actually on screen.
    pub fn note_width(&mut self, available: u16)
        ensures
            final(self)@ == (ListView { available, ..old(self)@ }),
    {
        self.available = available;
    }

    /// Moves the cursor by `delta`, or a page, clamped to the rows shown.
    /// Says whether it moved.
    pub fn move_cursor(&mut self, delta: isize, pages: bool) -> (r: bool)
        ensures
            final(self)@ == old(self)@.moved(delta as int, pages),
            r == (final(self)@.cursor.index != old(self)@.cursor.index),
    {
        proof {
            reveal(ListView::moved);
        }
        let before: usize = self.cursor.index;
        let count: usize = self.rows.visible.len();
        if pages {
            self.cursor.page(delta, count);
        } else {
            self.cursor.move_by(delta, count);
        }
        self.cursor.index != before
    }

    /// A click on a row. Says whether the cursor moved.
    pub fn click_row(&mut self, index: usize) -> (r: bool)
        ensures
            final(self)@ == old(self)@.clicked(index),
            r == (final(self)@.cursor.index != old(self)@.cursor.index),
    {
        proof {
            reveal(ListView::clicked);
        }
        let before: usize = self.cursor.index;
        let last: usize = self.rows.visible.len().saturating_sub(1);
        self.cursor.focus(
            if index < last {
                index
            } else {
                last
            },
        );
        self.cursor.index != before
    }

    /// The wheel over the table: the viewport moves and the cursor follows
    /// it rather than being left behind, so what a key acts on is always
    /// something on screen. Says whether the cursor moved.
    pub fn wheel(&mut self, delta: i32) -> (r: bool)
        ensures
            final(self)@ == old(self)@.wheeled(delta as int),
            r == (final(self)@.cursor.index != old(self)@.cursor.index),
    {
        proof {
            reveal(ListView::wheeled);
        }
        self.cursor.wheel(delta, self.rows.visible.len())
    }
}

/// The name of the row at a place, where there is one.
pub open spec fn row_name<T: Row>(at: Option<usize>, rows: Seq<T>) -> Option<Seq<char>> {
    match at {
        Some(at) if at < rows.len() => Some(rows[at as int].name_of()),
        _ => None,
    }
}

/// After a read the cursor is back on the row it was on, wherever that now
/// sorts, as long as the query still leaves it.
pub proof fn law_a_read_keeps_the_cursor_on_its_row<T: Row>(
    list: ListView,
    rows: &Vec<T>,
    name: Seq<char>,
)
    requires
        list.refiltered(rows).shows(rows, name),
        list.refiltered(rows).rows.visible.len() <= usize::MAX,
    ensures
        row_name(list.kept(rows, Some(name)).selected(), rows@) == Some(name),
{
    reveal(ListView::kept);
    lemma_shown_at_finds(list.refiltered(rows).rows.visible, rows@, name);
}

proof fn lemma_shown_at_finds<T: Row>(visible: Seq<usize>, rows: Seq<T>, name: Seq<char>)
    requires
        shown_at(visible, rows, name) < visible.len(),
    ensures
        0 <= shown_at(visible, rows, name),
        visible[shown_at(visible, rows, name)] < rows.len(),
        rows[visible[shown_at(visible, rows, name)] as int].name_of() == name,
    decreases visible.len(),
{
    if visible.len() > 0 && !(visible[0] < rows.len() && rows[visible[0] as int].name_of()
        == name) {
        lemma_shown_at_finds(visible.skip(1), rows, name);
    }
}

/// A row that was selected is the one under the cursor.
pub proof fn law_a_selected_row_is_under_the_cursor<T: Row>(
    list: ListView,
    rows: &Vec<T>,
    name: Seq<char>,
)
    requires
        list.selecting(rows, name).1,
        list.refiltered(rows).rows.visible.len() <= usize::MAX,
        list.refiltered(rows).unfiltered(rows).rows.visible.len() <= usize::MAX,
    ensures
        row_name(list.selecting(rows, name).0.selected(), rows@) == Some(name),
{
    reveal(ListView::selecting);
    let now = list.refiltered(rows);
    if now.shows(rows, name) {
        lemma_shown_at_finds(now.rows.visible, rows@, name);
    } else {
        lemma_shown_at_finds(now.unfiltered(rows).rows.visible, rows@, name);
    }
}

/// A row that is not there takes no query with it.
pub proof fn law_a_missing_row_leaves_the_query<T: Row>(
    list: ListView,
    rows: &Vec<T>,
    name: Seq<char>,
)
    requires
        !list.selecting(rows, name).1,
    ensures
        list.selecting(rows, name).0 == list.refiltered(rows),
        list.selecting(rows, name).0.input == list.input,
{
    reveal(ListView::selecting);
    reveal(ListView::refiltered);
}

/// Three clicks on the header of a column other than the default end back at
/// the default.
pub proof fn law_a_third_click_is_the_default(list: ListView, column: ColumnId, default: ColumnId)
    requires
        list.sort != column,
    ensures
        list.sorted_by(column, default).sorted_by(column, default).sorted_by(column, default) == (
        ListView { sort: default, descending: false, ..list }),
{
    reveal(ListView::sorted_by);
}

} // verus!
