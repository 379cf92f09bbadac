//! What a sorted table promises of two rows that are shown one above the
//! other, said of the rows' own fields.

use std::cmp::Ordering;
use vstd::prelude::*;

use super::list::{ListView, Row, Sorted};
use super::listing::{shown_rows, OrderKey, RowsView, Searchable};
use super::registries::{RegistriesView, RepositoryTable, TagTable};
use super::secrets::{inventory_place, place_in, SecretTable, SecretsView, VaultOrder};

use crate::azure::{Repository, SecretRow, Tag, Vault};
use crate::columns::ColumnId;
use crate::filter::Env;
use crate::kube::{ConfigMap, K8sEvent, Pod, SecretMeta};
use crate::order::{
    arranged, in_front, law_the_order_is_in_order, law_what_is_left_stays_in_order, order_by_cell,
    order_by_known, order_by_letter, order_by_name, picked_in_order, the_order, Arrangement, Cell,
    Picked,
};
use crate::plain::{appears, lemma_lower, same_letters, small};
use crate::store::AzureStore;
use crate::text::{length_of, lower, place, usize_of};
use crate::timestamp::{stamp_backwards, stamp_number, Timestamp};

verus! {

// ---------------------------------------------------------------------------
// What stands in front of what
// ---------------------------------------------------------------------------

/// Two moments in the order of time, or against it; an unset one is last
/// either way.
pub open spec fn in_time(a: Option<Timestamp>, b: Option<Timestamp>, descending: bool) -> bool {
    match (a, b) {
        (Some(a), Some(b)) => if descending {
            b.seconds <= a.seconds
        } else {
            a.seconds <= b.seconds
        },
        (None, Some(_)) => false,
        (_, None) => true,
    }
}

/// Two counts, the smaller first or the larger; one that is not known is last
/// either way.
pub open spec fn in_number(a: Option<u64>, b: Option<u64>, descending: bool) -> bool {
    match (a, b) {
        (Some(a), Some(b)) => if descending {
            b <= a
        } else {
            a <= b
        },
        (None, Some(_)) => false,
        (_, None) => true,
    }
}

/// Two texts are alike up to a place, where the first ends or has the smaller
/// letter.
pub open spec fn parts_at(a: Seq<char>, b: Seq<char>, at: int) -> bool {
    &&& 0 <= at <= a.len()
    &&& at < b.len()
    &&& forall|k: int| 0 <= k < at ==> #[trigger] a[k] == b[k]
    &&& at == a.len() || a[at] < b[at]
}

/// A text that a dictionary has before another.
pub open spec fn spelt_before(a: Seq<char>, b: Seq<char>) -> bool {
    exists|at: int| parts_at(a, b, at)
}

/// The same, whatever the case of the letters.
pub open spec fn named_at(a: Seq<char>, b: Seq<char>, at: int) -> bool {
    &&& 0 <= at <= a.len()
    &&& at < b.len()
    &&& forall|k: int| 0 <= k < at ==> small(#[trigger] a[k]) == small(b[k])
    &&& at == a.len() || small(a[at]) < small(b[at])
}

/// A name that comes before another, whatever the case of their letters.
pub open spec fn named_before(a: Seq<char>, b: Seq<char>) -> bool {
    exists|at: int| named_at(a, b, at)
}

/// Two names in order, or against it.
pub open spec fn in_names(a: Seq<char>, b: Seq<char>, descending: bool) -> bool {
    if descending {
        !named_before(a, b)
    } else {
        !named_before(b, a)
    }
}

/// Two names in order, or against it; an empty one is last either way.
pub open spec fn in_words(a: Seq<char>, b: Seq<char>, descending: bool) -> bool {
    if b.len() == 0 {
        true
    } else if a.len() == 0 {
        false
    } else {
        in_names(a, b, descending)
    }
}

/// Two texts in a dictionary's order, or against it; a missing one comes
/// before every other, and after them when it is turned.
pub open spec fn in_letters(a: Option<String>, b: Option<String>, descending: bool) -> bool {
    if descending {
        in_letters_up(b, a)
    } else {
        in_letters_up(a, b)
    }
}

pub open spec fn in_letters_up(a: Option<String>, b: Option<String>) -> bool {
    match (a, b) {
        (Some(a), Some(b)) => !spelt_before(b@, a@),
        (Some(_), None) => false,
        (None, _) => true,
    }
}

/// Two texts in a dictionary's order, or against it.
pub open spec fn in_dictionary(a: Seq<char>, b: Seq<char>, descending: bool) -> bool {
    if descending {
        !spelt_before(a, b)
    } else {
        !spelt_before(b, a)
    }
}

/// How far on a name's environment is: development, then QA, then production,
/// then none.
pub open spec fn stage(name: Seq<char>) -> int {
    if appears("dev"@, name) {
        0
    } else if appears("qa"@, name) {
        1
    } else if appears("prod"@, name) {
        2
    } else {
        3
    }
}

/// Two names by their environments, or against them; one of no environment is
/// last either way.
pub open spec fn in_stages(a: Seq<char>, b: Seq<char>, descending: bool) -> bool {
    if stage(b) == 3 {
        true
    } else if stage(a) == 3 {
        false
    } else if descending {
        stage(b) <= stage(a)
    } else {
        stage(a) <= stage(b)
    }
}

/// The place of the last vault of a name.
pub open spec fn last_of_name(vaults: Seq<Vault>, name: Seq<char>, at: int) -> bool {
    &&& 0 <= at < vaults.len()
    &&& vaults[at].name@ == name
    &&& forall|k: int| at < k < vaults.len() ==> (#[trigger] vaults[k]).name@ != name
}

/// Whether an inventory has a vault of a name.
pub open spec fn has_vault(vaults: Seq<Vault>, name: Seq<char>) -> bool {
    exists|k: int| 0 <= k < vaults.len() && (#[trigger] vaults[k]).name@ == name
}

/// Two vaults' names as the inventory has them, or against it; one it has not
/// comes before every other, and after them when it is turned.
pub open spec fn in_inventory(
    vaults: Seq<Vault>,
    a: Seq<char>,
    b: Seq<char>,
    descending: bool,
) -> bool {
    if descending {
        in_inventory_up(vaults, b, a)
    } else {
        in_inventory_up(vaults, a, b)
    }
}

pub open spec fn in_inventory_up(vaults: Seq<Vault>, a: Seq<char>, b: Seq<char>) -> bool {
    &&& has_vault(vaults, a) ==> has_vault(vaults, b)
    &&& forall|x: int, y: int|
        #[trigger] last_of_name(vaults, a, x) && #[trigger] last_of_name(vaults, b, y) ==> x <= y
}

/// The place of the last pair of a name.
pub open spec fn last_pair(order: Seq<(String, usize)>, name: Seq<char>, at: int) -> bool {
    &&& 0 <= at < order.len()
    &&& order[at].0@ == name
    &&& forall|k: int| at < k < order.len() ==> (#[trigger] order[k]).0@ != name
}

/// Two vaults' names by the numbers they are given, or against them.
pub open spec fn in_given(
    order: Seq<(String, usize)>,
    a: Seq<char>,
    b: Seq<char>,
    descending: bool,
) -> bool {
    forall|x: int, y: int|
        #[trigger] last_pair(order, a, x) && #[trigger] last_pair(order, b, y) ==> if descending {
            order[y].1 <= order[x].1
        } else {
            order[x].1 <= order[y].1
        }
}

// ---------------------------------------------------------------------------
// The same, as cells are compared
// ---------------------------------------------------------------------------

proof fn lemma_in_time(a: Option<Timestamp>, b: Option<Timestamp>, descending: bool)
    ensures
        order_by_known(stamp_number(a), stamp_number(b), descending) != Ordering::Greater
            <==> in_time(a, b, descending),
        order_by_known(stamp_number(a), stamp_number(b), descending) == Ordering::Equal <==> a == b,
        order_by_known(stamp_backwards(a), stamp_backwards(b), descending) != Ordering::Greater
            <==> in_time(a, b, !descending),
        order_by_known(stamp_backwards(a), stamp_backwards(b), descending) == Ordering::Equal <==> a
            == b,
{
}

proof fn lemma_in_letters(a: Seq<char>, b: Seq<char>)
    ensures
        order_by_letter(a, b) == Ordering::Less <==> spelt_before(a, b),
        order_by_letter(a, b) == Ordering::Greater <==> spelt_before(b, a),
        order_by_letter(a, b) == Ordering::Equal <==> a == b,
    decreases a.len(),
{
    crate::order::lemma_by_letter_equal(a, b);
    if a.len() == 0 {
        if b.len() > 0 {
            assert(parts_at(a, b, 0));
        }
        assert(!spelt_before(b, a));
        assert(!(b.len() == 0 && spelt_before(a, b)));
    } else if b.len() == 0 {
        assert(parts_at(b, a, 0));
        assert(!spelt_before(a, b));
    } else {
        let (x, y) = (a.skip(1), b.skip(1));
        if a[0] < b[0] {
            assert(parts_at(a, b, 0));
            assert forall|at: int| !parts_at(b, a, at) by {
                if parts_at(b, a, at) && at > 0 {
                    assert(b[0] == a[0]);
                }
            }
        } else if b[0] < a[0] {
            assert(parts_at(b, a, 0));
            assert forall|at: int| !parts_at(a, b, at) by {
                if parts_at(a, b, at) && at > 0 {
                    assert(b[0] == a[0]);
                }
            }
        } else {
            lemma_in_letters(x, y);
            lemma_one_letter_on(a, b);
            lemma_one_letter_on(b, a);
        }
    }
}

proof fn lemma_one_letter_on(a: Seq<char>, b: Seq<char>)
    requires
        a.len() > 0,
        b.len() > 0,
        a[0] == b[0],
    ensures
        spelt_before(a, b) <==> spelt_before(a.skip(1), b.skip(1)),
{
    let (x, y) = (a.skip(1), b.skip(1));
    if spelt_before(a, b) {
        let at = choose|at: int| parts_at(a, b, at);
        assert(at > 0);
        assert forall|k: int| 0 <= k < at - 1 implies #[trigger] x[k] == y[k] by {
            assert(a[k + 1] == b[k + 1]);
        }
        assert(parts_at(x, y, at - 1));
    }
    if spelt_before(x, y) {
        let at = choose|at: int| parts_at(x, y, at);
        assert forall|k: int| 0 <= k < at + 1 implies #[trigger] a[k] == b[k] by {
            if k > 0 {
                assert(x[k - 1] == y[k - 1]);
            }
        }
        assert(parts_at(a, b, at + 1));
    }
}

proof fn lemma_spelt_named(a: Seq<char>, b: Seq<char>)
    ensures
        spelt_before(lower(a), lower(b)) <==> named_before(a, b),
{
    lemma_lower(a);
    lemma_lower(b);
    let (x, y) = (lower(a), lower(b));
    if spelt_before(x, y) {
        let at = choose|at: int| parts_at(x, y, at);
        assert forall|k: int| 0 <= k < at implies small(#[trigger] a[k]) == small(b[k]) by {
            assert(x[k] == y[k]);
        }
        assert(named_at(a, b, at));
    }
    if named_before(a, b) {
        let at = choose|at: int| named_at(a, b, at);
        assert forall|k: int| 0 <= k < at implies #[trigger] x[k] == y[k] by {
            assert(small(a[k]) == small(b[k]));
        }
        assert(parts_at(x, y, at));
    }
}

proof fn lemma_in_names(a: Seq<char>, b: Seq<char>, descending: bool)
    ensures
        order_by_name(a, b) == Ordering::Less <==> named_before(a, b),
        order_by_name(a, b) == Ordering::Greater <==> named_before(b, a),
        order_by_name(a, b) == Ordering::Equal <==> same_letters(a, b),
        order_by_cell(Cell::Name(a), Cell::Name(b), descending) != Ordering::Greater <==> in_names(
            a,
            b,
            descending,
        ),
        order_by_cell(crate::order::filled(a), crate::order::filled(b), descending)
            != Ordering::Greater <==> in_words(a, b, descending),
        order_by_cell(crate::order::filled(a), crate::order::filled(b), descending)
            == Ordering::Equal <==> same_letters(a, b),
{
    lemma_in_letters(lower(a), lower(b));
    lemma_spelt_named(a, b);
    lemma_spelt_named(b, a);
    crate::plain::law_the_same_name_has_the_same_letters(a, b);
    crate::plain::law_the_same_name_has_the_same_letters(b, a);
}

proof fn lemma_in_texts(a: Option<String>, b: Option<String>, descending: bool)
    ensures
        order_by_cell(
            Cell::Letters(crate::kube::said(a)),
            Cell::Letters(crate::kube::said(b)),
            descending,
        ) != Ordering::Greater <==> in_letters(a, b, descending),
        order_by_cell(
            Cell::Letters(crate::kube::said(a)),
            Cell::Letters(crate::kube::said(b)),
            descending,
        ) == Ordering::Equal <==> crate::kube::said(a) == crate::kube::said(b),
{
    if let (Some(x), Some(y)) = (a, b) {
        lemma_in_letters(x@, y@);
        lemma_in_letters(y@, x@);
    }
}

proof fn lemma_in_stages(a: Seq<char>, b: Seq<char>, descending: bool)
    ensures
        ({
            let order = order_by_known(
                super::secrets::env_number(Env::named_in(a)),
                super::secrets::env_number(Env::named_in(b)),
                descending,
            );
            &&& order != Ordering::Greater <==> in_stages(a, b, descending)
            &&& order == Ordering::Equal <==> stage(a) == stage(b)
        }),
{
    super::filters::law_a_name_is_of_the_environment_it_holds(a);
    super::filters::law_a_name_is_of_the_environment_it_holds(b);
    assert(super::filters::is_of(a, Env::Dev) == appears("dev"@, a));
    assert(super::filters::is_of(a, Env::Qa) == (appears("qa"@, a) && !appears("dev"@, a)));
    assert(super::filters::is_of(a, Env::Prod) == (appears("prod"@, a) && !appears("qa"@, a)
        && !appears("dev"@, a)));
    assert(super::filters::is_of(b, Env::Dev) == appears("dev"@, b));
    assert(super::filters::is_of(b, Env::Qa) == (appears("qa"@, b) && !appears("dev"@, b)));
    assert(super::filters::is_of(b, Env::Prod) == (appears("prod"@, b) && !appears("qa"@, b)
        && !appears("dev"@, b)));
}

/// Where the inventory has the last vault of a name.
proof fn lemma_inventory_place(vaults: Seq<Vault>, name: Seq<char>)
    requires
        vaults.len() <= usize::MAX,
    ensures
        match inventory_place(vaults, name) {
            Some(at) => last_of_name(vaults, name, usize_of(at)) && has_vault(vaults, name),
            None => !has_vault(vaults, name),
        },
    decreases vaults.len(),
{
    if vaults.len() > 0 {
        let before = vaults.drop_last();
        lemma_inventory_place(before, name);
        if vaults.last().name@ == name {
            assert(vaults[vaults.len() - 1].name@ == name);
            assert(inventory_place(vaults, name) == Some(place(vaults.len() - 1)));
        } else {
            match inventory_place(before, name) {
                Some(at) => {
                    let at = usize_of(at);
                    assert(before[at] == vaults[at]);
                    assert forall|k: int| at < k < vaults.len() implies (#[trigger] vaults[k]).name@
                        != name by {
                        if k < before.len() {
                            assert(before[k] == vaults[k]);
                        }
                    }
                },
                None => {
                    assert forall|k: int| 0 <= k < vaults.len() implies (#[trigger] vaults[k]).name@
                        != name by {
                        if k < before.len() {
                            assert(before[k] == vaults[k]);
                        }
                    }
                },
            }
        }
    }
}

proof fn lemma_one_last(vaults: Seq<Vault>, name: Seq<char>, x: int, y: int)
    requires
        last_of_name(vaults, name, x),
        last_of_name(vaults, name, y),
    ensures
        x == y,
{
    if x < y {
        assert(vaults[y].name@ != name);
    } else if y < x {
        assert(vaults[x].name@ != name);
    }
}

proof fn lemma_in_inventory(vaults: &Vec<Vault>, a: Seq<char>, b: Seq<char>, descending: bool)
    ensures
        ({
            let order = order_by_cell(
                Cell::Number(super::secrets::place_number(inventory_place(vaults@, a))),
                Cell::Number(super::secrets::place_number(inventory_place(vaults@, b))),
                descending,
            );
            order != Ordering::Greater ==> in_inventory(vaults@, a, b, descending)
        }),
{
    let held = vaults.len();
    lemma_inventory_place(vaults@, a);
    lemma_inventory_place(vaults@, b);
    assert forall|x: int, y: int|
        #[trigger] last_of_name(vaults@, a, x) && #[trigger] last_of_name(
            vaults@,
            b,
            y,
        ) implies inventory_place(vaults@, a) == Some(place(x)) && inventory_place(vaults@, b)
        == Some(place(y)) && 0 <= x <= usize::MAX && 0 <= y <= usize::MAX by {
        assert(has_vault(vaults@, a)) by {
            assert(vaults@[x].name@ == a);
        }
        assert(has_vault(vaults@, b)) by {
            assert(vaults@[y].name@ == b);
        }
        if let Some(at) = inventory_place(vaults@, a) {
            lemma_one_last(vaults@, a, x, usize_of(at));
        }
        if let Some(at) = inventory_place(vaults@, b) {
            lemma_one_last(vaults@, b, y, usize_of(at));
        }
    }
}

proof fn lemma_place_in(order: Seq<(String, usize)>, name: Seq<char>, at: int)
    requires
        last_pair(order, name, at),
    ensures
        place_in(order, name) == Some(order[at].1),
    decreases order.len(),
{
    let before = order.drop_last();
    if order.last().0@ == name {
        if at < order.len() - 1 {
            assert(order[order.len() - 1].0@ != name);
        }
    } else {
        assert(at < order.len() - 1);
        assert(before[at] == order[at]);
        assert forall|k: int| at < k < before.len() implies (#[trigger] before[k]).0@ != name by {
            assert(before[k] == order[k]);
        }
        lemma_place_in(before, name, at);
    }
}

proof fn lemma_in_given(order: Seq<(String, usize)>, a: Seq<char>, b: Seq<char>, descending: bool)
    ensures
        order_by_cell(
            Cell::Number(super::secrets::place_number(place_in(order, a))),
            Cell::Number(super::secrets::place_number(place_in(order, b))),
            descending,
        ) != Ordering::Greater ==> in_given(order, a, b, descending),
{
    assert forall|x: int, y: int|
        #[trigger] last_pair(order, a, x) && #[trigger] last_pair(order, b, y) implies place_in(
        order,
        a,
    ) == Some(order[x].1) && place_in(order, b) == Some(order[y].1) by {
        lemma_place_in(order, a, x);
        lemma_place_in(order, b, y);
    }
}

// ---------------------------------------------------------------------------
// The rows of a list stand in order
// ---------------------------------------------------------------------------

/// Rows that have moved are shown with none in front of one it stands after.
proof fn lemma_shown_in_order<T: Searchable>(
    rows: RowsView,
    table: &T,
    key: OrderKey,
    text: Seq<char>,
    i: int,
    j: int,
)
    requires
        0 <= i < j < rows.spoiled().refreshed(table, key, text).visible.len(),
    ensures
        ({
            let shown = rows.spoiled().refreshed(table, key, text).visible;
            table.rank(usize_of(shown[i]), usize_of(shown[j])) != Ordering::Greater
        }),
{
    let shown = rows.spoiled().refreshed(table, key, text).visible;
    lemma_shown_arranged(rows, table, key, text);
    assert(in_front(table, usize_of(shown[i]), usize_of(shown[j])));
}

proof fn lemma_shown_arranged<T: Searchable>(
    rows: RowsView,
    table: &T,
    key: OrderKey,
    text: Seq<char>,
)
    ensures
        arranged(table, rows.spoiled().refreshed(table, key, text).visible),
{
    super::listing::law_a_look_settles_the_rows(rows, table, key, text);
    law_the_order_is_in_order(table, key.2 as nat);
    let sorted = the_order(table, key.2 as int);
    let query = crate::filter::QueryView::of(text, table.filter_keys());
    let haystacks = Seq::new(key.2 as nat, |at: int| table.searched(at));
    let keep = |at: usize| at < key.2 && super::listing::left_by(table, haystacks, query, at);
    law_what_is_left_stays_in_order(table, sorted, keep);
}

proof fn lemma_worked_out_arranged<T: Searchable>(table: &T, count: usize, text: Seq<char>)
    ensures
        arranged(table, shown_rows(table, count, text)),
{
    law_the_order_is_in_order(table, count as nat);
    let sorted = the_order(table, count as int);
    let query = crate::filter::QueryView::of(text, table.filter_keys());
    let keep = |at: usize|
        at < count && table.answers(query.fields, at as int) && crate::filter::mentions_all(
            table.searched(at as int),
            query.words,
        );
    law_what_is_left_stays_in_order(table, sorted, keep);
}

proof fn lemma_picked_in_order<A: Arrangement>(rows: &A, picks: &Vec<usize>, i: int, j: int)
    requires
        0 <= i < j < picks@.len(),
    ensures
        picked_in_order(rows, picks).len() == picks@.len(),
        rows.rank(
            usize_of(picked_in_order(rows, picks)[i]),
            usize_of(picked_in_order(rows, picks)[j]),
        ) != Ordering::Greater,
{
    let table = Picked { rows, picks };
    let count = picks.len();
    lemma_ordered(&table, count);
    let order = the_order(&table, length_of(picks@));
    assert(in_front(&table, usize_of(order[i]), usize_of(order[j])));
}

proof fn lemma_ordered<A: Arrangement>(rows: &A, count: usize)
    ensures
        arranged(rows, the_order(rows, count as int)),
        the_order(rows, count as int).len() == count,
{
    law_the_order_is_in_order(rows, count as nat);
}


// ---------------------------------------------------------------------------
// Vault secrets
// ---------------------------------------------------------------------------

proof fn lemma_secrets_in_turn(table: &SecretTable, x: int, y: int)
    requires
        table.rank(x, y) != Ordering::Greater,
    ensures
        ({
            let (a, b) = (table.rows@[x], table.rows@[y]);
            let (by, descending) = (table.by, table.descending);
            // By the column that was chosen.
            &&& by == ColumnId::Updated ==> in_time(a.updated, b.updated, descending)
            &&& by == ColumnId::Created ==> in_time(a.created, b.created, descending)
            &&& by == ColumnId::Expires ==> in_time(a.expires, b.expires, descending)
            &&& by == ColumnId::Enabled ==> if descending {
                b.enabled ==> a.enabled
            } else {
                a.enabled ==> b.enabled
            }
            &&& by == ColumnId::Type ==> in_letters(a.content_type, b.content_type, descending)
            &&& by == ColumnId::Env ==> in_stages(a.vault@, b.vault@, descending)
            &&& by == ColumnId::Name ==> in_names(a.name@, b.name@, descending)
            // Where that tells nothing, by name.
            &&& by == ColumnId::Updated && a.updated == b.updated ==> in_names(
                a.name@,
                b.name@,
                descending,
            )
            &&& by == ColumnId::Created && a.created == b.created ==> in_names(
                a.name@,
                b.name@,
                descending,
            )
            &&& by == ColumnId::Expires && a.expires == b.expires ==> in_names(
                a.name@,
                b.name@,
                descending,
            )
            &&& by == ColumnId::Enabled && a.enabled == b.enabled ==> in_names(
                a.name@,
                b.name@,
                descending,
            )
            &&& by == ColumnId::Env && stage(a.vault@) == stage(b.vault@) ==> in_names(
                a.name@,
                b.name@,
                descending,
            )
            &&& by == ColumnId::Type && crate::kube::said(a.content_type) == crate::kube::said(
                b.content_type,
            ) ==> in_names(a.name@, b.name@, descending)
            &&& table.order matches VaultOrder::Given(order) ==> {
                &&& by == ColumnId::Vault ==> in_given(order@, a.vault@, b.vault@, descending)
                &&& by == ColumnId::Name && same_letters(a.name@, b.name@) ==> in_given(
                    order@,
                    a.vault@,
                    b.vault@,
                    false,
                )
            }
            &&& table.order matches VaultOrder::Inventory(vaults) ==> {
                let vaults = vaults@;
                // By the inventory, and last of all by it, which is never turned.
                &&& by == ColumnId::Vault ==> in_inventory(vaults, a.vault@, b.vault@, descending)
                &&& by == ColumnId::Name && same_letters(a.name@, b.name@) ==> in_inventory(
                    vaults,
                    a.vault@,
                    b.vault@,
                    false,
                )
                &&& by == ColumnId::Updated && a.updated == b.updated && same_letters(a.name@, b.name@)
                    ==> in_inventory(vaults, a.vault@, b.vault@, false)
                &&& by == ColumnId::Created && a.created == b.created && same_letters(a.name@, b.name@)
                    ==> in_inventory(vaults, a.vault@, b.vault@, false)
                &&& by == ColumnId::Expires && a.expires == b.expires && same_letters(a.name@, b.name@)
                    ==> in_inventory(vaults, a.vault@, b.vault@, false)
                &&& by == ColumnId::Enabled && a.enabled == b.enabled && same_letters(a.name@, b.name@)
                    ==> in_inventory(vaults, a.vault@, b.vault@, false)
                &&& by == ColumnId::Env && stage(a.vault@) == stage(b.vault@) && same_letters(
                    a.name@,
                    b.name@,
                ) ==> in_inventory(vaults, a.vault@, b.vault@, false)
            }
        }),
{
    let (a, b) = (table.rows@[x], table.rows@[y]);
    let descending = table.descending;
    lemma_in_time(a.updated, b.updated, descending);
    lemma_in_time(a.created, b.created, descending);
    lemma_in_time(a.expires, b.expires, descending);
    lemma_in_texts(a.content_type, b.content_type, descending);
    lemma_in_stages(a.vault@, b.vault@, descending);
    lemma_in_names(a.name@, b.name@, descending);
    if let VaultOrder::Given(order) = table.order {
        lemma_in_given(order@, a.vault@, b.vault@, descending);
        lemma_in_given(order@, a.vault@, b.vault@, false);
    }
    if let VaultOrder::Inventory(vaults) = table.order {
        lemma_in_inventory(vaults, a.vault@, b.vault@, descending);
        lemma_in_inventory(vaults, a.vault@, b.vault@, false);
    }
}

/// The secrets on the screen stand in the order of the column that was chosen,
/// by the rows' own fields: of two rows, the upper one's stamp is no later than
/// the lower one's, or no earlier when the sort is turned, and an unset one is
/// last either way. Where the column tells nothing it is by name, and then as
/// the inventory has the vaults.
pub proof fn law_the_secrets_shown_are_sorted(
    screen: SecretsView,
    store: AzureStore,
    now: Timestamp,
    i: int,
    j: int,
)
    requires
        0 <= i < j < screen.spoiled().refiltered(store, now).rows.visible.len(),
    ensures
        ({
            let shown = screen.spoiled().refiltered(store, now).rows.visible;
            let a = store.secrets@[usize_of(shown[i])];
            let b = store.secrets@[usize_of(shown[j])];
            let (by, descending) = (screen.sort, screen.descending);
            let vaults = store.inventory.vaults@;
            // By the column that was chosen.
            &&& by == ColumnId::Updated ==> in_time(a.updated, b.updated, descending)
            &&& by == ColumnId::Created ==> in_time(a.created, b.created, descending)
            &&& by == ColumnId::Expires ==> in_time(a.expires, b.expires, descending)
            &&& by == ColumnId::Enabled ==> if descending {
                b.enabled ==> a.enabled
            } else {
                a.enabled ==> b.enabled
            }
            &&& by == ColumnId::Type ==> in_letters(a.content_type, b.content_type, descending)
            &&& by == ColumnId::Env ==> in_stages(a.vault@, b.vault@, descending)
            &&& by == ColumnId::Name ==> in_names(a.name@, b.name@, descending)
            // Where that tells nothing, by name.
            &&& by == ColumnId::Updated && a.updated == b.updated ==> in_names(
                a.name@,
                b.name@,
                descending,
            )
            &&& by == ColumnId::Created && a.created == b.created ==> in_names(
                a.name@,
                b.name@,
                descending,
            )
            &&& by == ColumnId::Expires && a.expires == b.expires ==> in_names(
                a.name@,
                b.name@,
                descending,
            )
            &&& by == ColumnId::Enabled && a.enabled == b.enabled ==> in_names(
                a.name@,
                b.name@,
                descending,
            )
            &&& by == ColumnId::Env && stage(a.vault@) == stage(b.vault@) ==> in_names(
                a.name@,
                b.name@,
                descending,
            )
            &&& by == ColumnId::Type && crate::kube::said(a.content_type) == crate::kube::said(
                b.content_type,
            ) ==> in_names(a.name@, b.name@, descending)
            // By the inventory, and last of all by it, which is never turned.
            &&& by == ColumnId::Vault ==> in_inventory(vaults, a.vault@, b.vault@, descending)
            &&& by == ColumnId::Name && same_letters(a.name@, b.name@) ==> in_inventory(
                vaults,
                a.vault@,
                b.vault@,
                false,
            )
            &&& by == ColumnId::Updated && a.updated == b.updated && same_letters(a.name@, b.name@)
                ==> in_inventory(vaults, a.vault@, b.vault@, false)
            &&& by == ColumnId::Created && a.created == b.created && same_letters(a.name@, b.name@)
                ==> in_inventory(vaults, a.vault@, b.vault@, false)
            &&& by == ColumnId::Expires && a.expires == b.expires && same_letters(a.name@, b.name@)
                ==> in_inventory(vaults, a.vault@, b.vault@, false)
            &&& by == ColumnId::Enabled && a.enabled == b.enabled && same_letters(a.name@, b.name@)
                ==> in_inventory(vaults, a.vault@, b.vault@, false)
            &&& by == ColumnId::Env && stage(a.vault@) == stage(b.vault@) && same_letters(
                a.name@,
                b.name@,
            ) ==> in_inventory(vaults, a.vault@, b.vault@, false)
        }),
{
    let table = SecretTable {
        rows: &store.secrets,
        by: screen.sort,
        descending: screen.descending,
        order: VaultOrder::Inventory(&store.inventory.vaults),
        now,
    };
    let key = (screen.sort, screen.descending, store.secrets.len());
    lemma_shown_in_order(screen.rows, &table, key, screen.input.text, i, j);
    let shown = screen.spoiled().refiltered(store, now).rows.visible;
    lemma_secrets_in_turn(&table, usize_of(shown[i]), usize_of(shown[j]));
}

/// So do the rows that [`super::secrets::sort`] puts in order.
pub proof fn law_secrets_are_sorted_by_their_own_fields(
    picks: Vec<usize>,
    rows: Vec<SecretRow>,
    by: ColumnId,
    descending: bool,
    order: Vec<(String, usize)>,
    i: int,
    j: int,
)
    requires
        0 <= i < j < picks@.len(),
    ensures
        ({
            let table = SecretTable {
                rows: &rows,
                by,
                descending,
                order: VaultOrder::Given(&order),
                now: Timestamp { seconds: 0 },
            };
            let sorted = picked_in_order(&table, &picks);
            let a = rows@[usize_of(sorted[i])];
            let b = rows@[usize_of(sorted[j])];
            &&& sorted.len() == picks@.len()
            &&& by == ColumnId::Vault ==> in_given(order@, a.vault@, b.vault@, descending)
            &&& by == ColumnId::Name && same_letters(a.name@, b.name@) ==> in_given(
                order@,
                a.vault@,
                b.vault@,
                false,
            )
            // By the column that was chosen.
            &&& by == ColumnId::Updated ==> in_time(a.updated, b.updated, descending)
            &&& by == ColumnId::Created ==> in_time(a.created, b.created, descending)
            &&& by == ColumnId::Expires ==> in_time(a.expires, b.expires, descending)
            &&& by == ColumnId::Enabled ==> if descending {
                b.enabled ==> a.enabled
            } else {
                a.enabled ==> b.enabled
            }
            &&& by == ColumnId::Type ==> in_letters(a.content_type, b.content_type, descending)
            &&& by == ColumnId::Env ==> in_stages(a.vault@, b.vault@, descending)
            &&& by == ColumnId::Name ==> in_names(a.name@, b.name@, descending)
            // Where that tells nothing, by name.
            &&& by == ColumnId::Updated && a.updated == b.updated ==> in_names(
                a.name@,
                b.name@,
                descending,
            )
            &&& by == ColumnId::Created && a.created == b.created ==> in_names(
                a.name@,
                b.name@,
                descending,
            )
            &&& by == ColumnId::Expires && a.expires == b.expires ==> in_names(
                a.name@,
                b.name@,
                descending,
            )
            &&& by == ColumnId::Enabled && a.enabled == b.enabled ==> in_names(
                a.name@,
                b.name@,
                descending,
            )
            &&& by == ColumnId::Env && stage(a.vault@) == stage(b.vault@) ==> in_names(
                a.name@,
                b.name@,
                descending,
            )
            &&& by == ColumnId::Type && crate::kube::said(a.content_type) == crate::kube::said(
                b.content_type,
            ) ==> in_names(a.name@, b.name@, descending)
        }),
{
    let table = SecretTable {
        rows: &rows,
        by,
        descending,
        order: VaultOrder::Given(&order),
        now: Timestamp { seconds: 0 },
    };
    lemma_picked_in_order(&table, &picks, i, j);
    let sorted = picked_in_order(&table, &picks);
    lemma_secrets_in_turn(&table, usize_of(sorted[i]), usize_of(sorted[j]));
}

// ---------------------------------------------------------------------------
// Repositories and tags
// ---------------------------------------------------------------------------

proof fn lemma_in_number(a: Option<u64>, b: Option<u64>, descending: bool)
    ensures
        order_by_known(crate::text::known_of(a), crate::text::known_of(b), descending)
            != Ordering::Greater <==> in_number(a, b, descending),
        order_by_known(crate::text::known_of(a), crate::text::known_of(b), descending)
            == Ordering::Equal <==> a == b,
{
}

proof fn lemma_in_dictionary(a: Seq<char>, b: Seq<char>, descending: bool)
    ensures
        order_by_cell(Cell::Letters(Some(a)), Cell::Letters(Some(b)), descending)
            != Ordering::Greater <==> in_dictionary(a, b, descending),
        order_by_cell(Cell::Letters(Some(a)), Cell::Letters(Some(b)), descending)
            == Ordering::Equal <==> a == b,
{
    lemma_in_letters(a, b);
}

proof fn lemma_repositories_in_turn(table: &RepositoryTable, x: int, y: int)
    requires
        table.rank(x, y) != Ordering::Greater,
    ensures
        ({
            let (a, b) = (table.rows@[x], table.rows@[y]);
            let (by, descending) = (table.by, table.descending);
            // By the column that was chosen.
            &&& by == ColumnId::Updated ==> in_time(a.updated, b.updated, descending)
            &&& by == ColumnId::Created ==> in_time(a.created, b.created, descending)
            &&& by == ColumnId::Tags ==> in_number(a.tag_count, b.tag_count, descending)
            &&& by == ColumnId::Manifests ==> in_number(
                a.manifest_count,
                b.manifest_count,
                descending,
            )
            &&& by == ColumnId::Env ==> in_stages(a.registry@, b.registry@, descending)
            &&& by == ColumnId::Registry ==> in_dictionary(a.registry@, b.registry@, descending)
            &&& by == ColumnId::Repository ==> in_dictionary(a.name@, b.name@, descending)
            // Where that tells nothing, by name, and then by registry.
            &&& ({
                ||| by == ColumnId::Updated && a.updated == b.updated
                ||| by == ColumnId::Created && a.created == b.created
                ||| by == ColumnId::Tags && a.tag_count == b.tag_count
                ||| by == ColumnId::Manifests && a.manifest_count == b.manifest_count
                ||| by == ColumnId::Env && stage(a.registry@) == stage(b.registry@)
                ||| by == ColumnId::Registry && a.registry@ == b.registry@
            }) ==> in_dictionary(a.name@, b.name@, false) && (a.name@ == b.name@ ==> in_dictionary(
                a.registry@,
                b.registry@,
                false,
            ))
            &&& by == ColumnId::Repository && a.name@ == b.name@ ==> in_dictionary(
                a.registry@,
                b.registry@,
                false,
            )
        }),
{
    let (a, b) = (table.rows@[x], table.rows@[y]);
    let descending = table.descending;
    lemma_in_time(a.updated, b.updated, descending);
    lemma_in_time(a.created, b.created, descending);
    lemma_in_number(a.tag_count, b.tag_count, descending);
    lemma_in_number(a.manifest_count, b.manifest_count, descending);
    lemma_in_stages(a.registry@, b.registry@, descending);
    lemma_in_dictionary(a.registry@, b.registry@, descending);
    lemma_in_dictionary(a.name@, b.name@, descending);
    lemma_in_dictionary(a.registry@, b.registry@, false);
    lemma_in_dictionary(a.name@, b.name@, false);
}

proof fn lemma_tags_in_turn(table: &TagTable, x: int, y: int)
    requires
        table.rank(x, y) != Ordering::Greater,
    ensures
        ({
            let (a, b) = (table.tags@[x], table.tags@[y]);
            let (by, descending) = (table.by, table.descending);
            // By the column that was chosen.
            &&& by == ColumnId::Updated ==> in_time(a.updated, b.updated, descending)
            &&& by == ColumnId::Created ==> in_time(a.created, b.created, descending)
            &&& by == ColumnId::Tag ==> in_dictionary(a.name@, b.name@, descending)
            &&& by == ColumnId::Digest ==> in_dictionary(a.digest@, b.digest@, descending)
            // Where that tells nothing, by name.
            &&& ({
                ||| by == ColumnId::Updated && a.updated == b.updated
                ||| by == ColumnId::Created && a.created == b.created
                ||| by == ColumnId::Digest && a.digest@ == b.digest@
            }) ==> in_dictionary(a.name@, b.name@, false)
        }),
{
    let (a, b) = (table.tags@[x], table.tags@[y]);
    let descending = table.descending;
    lemma_in_time(a.updated, b.updated, descending);
    lemma_in_time(a.created, b.created, descending);
    lemma_in_dictionary(a.digest@, b.digest@, descending);
    lemma_in_dictionary(a.name@, b.name@, descending);
    lemma_in_dictionary(a.name@, b.name@, false);
}

/// The repositories on the screen stand in the order of the column that was
/// chosen, by the rows' own fields; then by name, and then by registry.
pub proof fn law_the_repositories_shown_are_sorted(
    screen: RegistriesView,
    store: AzureStore,
    now: Timestamp,
    i: int,
    j: int,
)
    requires
        0 <= i < j < screen.spoiled().looked(store, now).rows.visible.len(),
    ensures
        ({
            let shown = screen.spoiled().looked(store, now).rows.visible;
            let a = store.repositories@[usize_of(shown[i])];
            let b = store.repositories@[usize_of(shown[j])];
            let (by, descending) = (screen.repositories.sort, screen.repositories.descending);
            // By the column that was chosen.
            &&& by == ColumnId::Updated ==> in_time(a.updated, b.updated, descending)
            &&& by == ColumnId::Created ==> in_time(a.created, b.created, descending)
            &&& by == ColumnId::Tags ==> in_number(a.tag_count, b.tag_count, descending)
            &&& by == ColumnId::Manifests ==> in_number(
                a.manifest_count,
                b.manifest_count,
                descending,
            )
            &&& by == ColumnId::Env ==> in_stages(a.registry@, b.registry@, descending)
            &&& by == ColumnId::Registry ==> in_dictionary(a.registry@, b.registry@, descending)
            &&& by == ColumnId::Repository ==> in_dictionary(a.name@, b.name@, descending)
            // Where that tells nothing, by name, and then by registry.
            &&& ({
                ||| by == ColumnId::Updated && a.updated == b.updated
                ||| by == ColumnId::Created && a.created == b.created
                ||| by == ColumnId::Tags && a.tag_count == b.tag_count
                ||| by == ColumnId::Manifests && a.manifest_count == b.manifest_count
                ||| by == ColumnId::Env && stage(a.registry@) == stage(b.registry@)
                ||| by == ColumnId::Registry && a.registry@ == b.registry@
            }) ==> in_dictionary(a.name@, b.name@, false) && (a.name@ == b.name@ ==> in_dictionary(
                a.registry@,
                b.registry@,
                false,
            ))
            &&& by == ColumnId::Repository && a.name@ == b.name@ ==> in_dictionary(
                a.registry@,
                b.registry@,
                false,
            )
        }),
{
    let table = RepositoryTable {
        rows: &store.repositories,
        by: screen.repositories.sort,
        descending: screen.repositories.descending,
        now,
    };
    let key = (
        screen.repositories.sort,
        screen.repositories.descending,
        store.repositories.len(),
    );
    lemma_shown_in_order(screen.rows, &table, key, screen.repositories.input.text, i, j);
    let shown = screen.spoiled().looked(store, now).rows.visible;
    lemma_repositories_in_turn(&table, usize_of(shown[i]), usize_of(shown[j]));
}

/// The tags on the screen stand in the order of the column that was chosen, by
/// the tags' own fields; then by name.
pub proof fn law_the_tags_shown_are_sorted(
    screen: RegistriesView,
    store: AzureStore,
    tags: Vec<Tag>,
    now: Timestamp,
    i: int,
    j: int,
)
    requires
        screen.spoiled().tags_read(store) == Some(Ok::<Vec<Tag>, String>(tags)),
        0 <= i < j < screen.spoiled().looked(store, now).tag_visible.len(),
    ensures
        ({
            let shown = screen.spoiled().looked(store, now).tag_visible;
            let a = tags@[usize_of(shown[i])];
            let b = tags@[usize_of(shown[j])];
            let (by, descending) = (screen.tags.sort, screen.tags.descending);
            // By the column that was chosen.
            &&& by == ColumnId::Updated ==> in_time(a.updated, b.updated, descending)
            &&& by == ColumnId::Created ==> in_time(a.created, b.created, descending)
            &&& by == ColumnId::Tag ==> in_dictionary(a.name@, b.name@, descending)
            &&& by == ColumnId::Digest ==> in_dictionary(a.digest@, b.digest@, descending)
            // Where that tells nothing, by name.
            &&& ({
                ||| by == ColumnId::Updated && a.updated == b.updated
                ||| by == ColumnId::Created && a.created == b.created
                ||| by == ColumnId::Digest && a.digest@ == b.digest@
            }) ==> in_dictionary(a.name@, b.name@, false)
        }),
{
    let table = TagTable {
        tags: &tags,
        by: screen.tags.sort,
        descending: screen.tags.descending,
        now,
    };
    lemma_worked_out_arranged(&table, tags.len(), screen.tags.input.text);
    let shown = screen.spoiled().looked(store, now).tag_visible;
    assert(in_front(&table, usize_of(shown[i]), usize_of(shown[j])));
    lemma_tags_in_turn(&table, usize_of(shown[i]), usize_of(shown[j]));
}

/// So do the rows that [`super::registries::sort_repositories`] puts in order.
pub proof fn law_repositories_are_sorted_by_their_own_fields(
    picks: Vec<usize>,
    rows: Vec<Repository>,
    by: ColumnId,
    descending: bool,
    i: int,
    j: int,
)
    requires
        0 <= i < j < picks@.len(),
    ensures
        ({
            let table = RepositoryTable {
                rows: &rows,
                by,
                descending,
                now: Timestamp { seconds: 0 },
            };
            let sorted = picked_in_order(&table, &picks);
            let a = rows@[usize_of(sorted[i])];
            let b = rows@[usize_of(sorted[j])];
            &&& sorted.len() == picks@.len()
            // By the column that was chosen.
            &&& by == ColumnId::Updated ==> in_time(a.updated, b.updated, descending)
            &&& by == ColumnId::Created ==> in_time(a.created, b.created, descending)
            &&& by == ColumnId::Tags ==> in_number(a.tag_count, b.tag_count, descending)
            &&& by == ColumnId::Manifests ==> in_number(
                a.manifest_count,
                b.manifest_count,
                descending,
            )
            &&& by == ColumnId::Env ==> in_stages(a.registry@, b.registry@, descending)
            &&& by == ColumnId::Registry ==> in_dictionary(a.registry@, b.registry@, descending)
            &&& by == ColumnId::Repository ==> in_dictionary(a.name@, b.name@, descending)
            // Where that tells nothing, by name, and then by registry.
            &&& ({
                ||| by == ColumnId::Updated && a.updated == b.updated
                ||| by == ColumnId::Created && a.created == b.created
                ||| by == ColumnId::Tags && a.tag_count == b.tag_count
                ||| by == ColumnId::Manifests && a.manifest_count == b.manifest_count
                ||| by == ColumnId::Env && stage(a.registry@) == stage(b.registry@)
                ||| by == ColumnId::Registry && a.registry@ == b.registry@
            }) ==> in_dictionary(a.name@, b.name@, false) && (a.name@ == b.name@ ==> in_dictionary(
                a.registry@,
                b.registry@,
                false,
            ))
            &&& by == ColumnId::Repository && a.name@ == b.name@ ==> in_dictionary(
                a.registry@,
                b.registry@,
                false,
            )
        }),
{
    let table = RepositoryTable { rows: &rows, by, descending, now: Timestamp { seconds: 0 } };
    lemma_picked_in_order(&table, &picks, i, j);
    let sorted = picked_in_order(&table, &picks);
    lemma_repositories_in_turn(&table, usize_of(sorted[i]), usize_of(sorted[j]));
}

/// So do the tags that [`super::registries::sort_tags`] puts in order.
pub proof fn law_tags_are_sorted_by_their_own_fields(
    picks: Vec<usize>,
    tags: Vec<Tag>,
    by: ColumnId,
    descending: bool,
    i: int,
    j: int,
)
    requires
        0 <= i < j < picks@.len(),
    ensures
        ({
            let table = TagTable { tags: &tags, by, descending, now: Timestamp { seconds: 0 } };
            let sorted = picked_in_order(&table, &picks);
            let a = tags@[usize_of(sorted[i])];
            let b = tags@[usize_of(sorted[j])];
            &&& sorted.len() == picks@.len()
            // By the column that was chosen.
            &&& by == ColumnId::Updated ==> in_time(a.updated, b.updated, descending)
            &&& by == ColumnId::Created ==> in_time(a.created, b.created, descending)
            &&& by == ColumnId::Tag ==> in_dictionary(a.name@, b.name@, descending)
            &&& by == ColumnId::Digest ==> in_dictionary(a.digest@, b.digest@, descending)
            // Where that tells nothing, by name.
            &&& ({
                ||| by == ColumnId::Updated && a.updated == b.updated
                ||| by == ColumnId::Created && a.created == b.created
                ||| by == ColumnId::Digest && a.digest@ == b.digest@
            }) ==> in_dictionary(a.name@, b.name@, false)
        }),
{
    let table = TagTable { tags: &tags, by, descending, now: Timestamp { seconds: 0 } };
    lemma_picked_in_order(&table, &picks, i, j);
    let sorted = picked_in_order(&table, &picks);
    lemma_tags_in_turn(&table, usize_of(sorted[i]), usize_of(sorted[j]));
}

/// Sorting rows leaves each of them in, as often as it was.
pub proof fn law_sorting_loses_no_row<A: Arrangement>(rows: &A, picks: &Vec<usize>)
    ensures
        picked_in_order(rows, picks).len() == picks@.len(),
        forall|at: int|
            0 <= at < picks@.len() ==> picked_in_order(rows, picks).contains(#[trigger] picks@[at]),
{
    let table = Picked { rows, picks };
    let count = picks.len();
    lemma_every_place(&table, count);
    let order = the_order(&table, length_of(picks@));
    let sorted = picked_in_order(rows, picks);
    assert forall|at: int| 0 <= at < picks@.len() implies sorted.contains(#[trigger] picks@[at]) by {
        assert(order.contains(place(at)));
        let k = order.index_of(place(at));
        assert(sorted[k] == picks@[usize_of(place(at))]);
    }
}

proof fn lemma_every_place<A: Arrangement>(rows: &A, count: usize)
    ensures
        the_order(rows, count as int).len() == count,
        forall|n: usize| n < count ==> #[trigger] the_order(rows, count as int).contains(n),
{
    law_the_order_is_in_order(rows, count as nat);
}

// ---------------------------------------------------------------------------
// A cluster's rows
// ---------------------------------------------------------------------------

proof fn lemma_list_in_order<T: Row>(list: ListView, rows: &Vec<T>, i: int, j: int)
    requires
        0 <= i < j < list.spoiled().refiltered(rows).rows.visible.len(),
    ensures
        ({
            let shown = list.spoiled().refiltered(rows).rows.visible;
            let a = rows@[usize_of(shown[i])];
            let b = rows@[usize_of(shown[j])];
            let cells = order_by_cell(a.cell(list.sort), b.cell(list.sort), list.descending);
            &&& cells != Ordering::Greater
            &&& cells == Ordering::Equal ==> !named_before(b.name_of(), a.name_of())
        }),
{
    reveal(ListView::refiltered);
    let table = Sorted { rows, by: list.sort, descending: list.descending };
    let key = (list.sort, list.descending, rows.len());
    lemma_shown_in_order(list.rows, &table, key, list.input.text, i, j);
    let shown = list.spoiled().refiltered(rows).rows.visible;
    let a = rows@[usize_of(shown[i])];
    let b = rows@[usize_of(shown[j])];
    lemma_in_names(a.name_of(), b.name_of(), false);
}

/// The pods on the screen stand in the order of the column that was chosen, by
/// their own fields, the newest first by age; then by namespace and name.
pub proof fn law_the_pods_shown_are_sorted(list: ListView, rows: Vec<Pod>, i: int, j: int)
    requires
        0 <= i < j < list.spoiled().refiltered(&rows).rows.visible.len(),
    ensures
        ({
            let shown = list.spoiled().refiltered(&rows).rows.visible;
            let a = rows@[usize_of(shown[i])];
            let b = rows@[usize_of(shown[j])];
            let (by, descending) = (list.sort, list.descending);
            &&& by == ColumnId::Age ==> in_time(a.created, b.created, !descending)
            &&& by == ColumnId::Name ==> in_words(a.key.name@, b.key.name@, descending)
            &&& by == ColumnId::Namespace ==> in_words(
                a.key.namespace@,
                b.key.namespace@,
                descending,
            )
            &&& by == ColumnId::Status ==> in_words(a.status@, b.status@, descending)
            &&& by == ColumnId::Node ==> in_words(a.node@, b.node@, descending)
            &&& by == ColumnId::Ip ==> in_words(a.ip@, b.ip@, descending)
            &&& by == ColumnId::Restarts ==> if descending {
                b.restarts <= a.restarts
            } else {
                a.restarts <= b.restarts
            }
            &&& by == ColumnId::Ready ==> if descending {
                b.ready.0 < a.ready.0 || (b.ready.0 == a.ready.0 && b.ready.1 <= a.ready.1)
            } else {
                a.ready.0 < b.ready.0 || (a.ready.0 == b.ready.0 && a.ready.1 <= b.ready.1)
            }
            &&& forall|x: Seq<char>, y: Seq<char>|
                by == ColumnId::Owner && #[trigger] super::filters::owner_is(a, x)
                    && #[trigger] super::filters::owner_is(b, y) ==> in_words(x, y, descending)
            &&& by == ColumnId::Image && a.containers@.len() > 0 && b.containers@.len() > 0
                ==> in_words(a.containers@[0].image@, b.containers@[0].image@, descending)
            &&& by == ColumnId::Image && a.containers@.len() == 0 ==> b.containers@.len() == 0
                || b.containers@[0].image@.len() == 0
            // Where that tells nothing, by namespace and name.
            &&& ({
                ||| by == ColumnId::Age && a.created == b.created
                ||| by == ColumnId::Name && same_letters(a.key.name@, b.key.name@)
                ||| by == ColumnId::Status && same_letters(a.status@, b.status@)
                ||| by == ColumnId::Node && same_letters(a.node@, b.node@)
                ||| by == ColumnId::Restarts && a.restarts == b.restarts
                ||| by == ColumnId::Ready && a.ready == b.ready
            }) ==> !named_before(
                b.key.namespace@ + "/"@ + b.key.name@,
                a.key.namespace@ + "/"@ + a.key.name@,
            )
        }),
{
    lemma_list_in_order(list, &rows, i, j);
    let shown = list.spoiled().refiltered(&rows).rows.visible;
    let a = rows@[usize_of(shown[i])];
    let b = rows@[usize_of(shown[j])];
    let descending = list.descending;
    lemma_in_time(a.created, b.created, descending);
    lemma_in_names(a.key.name@, b.key.name@, descending);
    lemma_in_names(a.key.namespace@, b.key.namespace@, descending);
    lemma_in_names(a.status@, b.status@, descending);
    lemma_in_names(a.node@, b.node@, descending);
    lemma_in_names(a.ip@, b.ip@, descending);
    lemma_in_names(a.owner_text(), b.owner_text(), descending);
    lemma_in_names(
        super::list::first_image(a.containers@),
        super::list::first_image(b.containers@),
        descending,
    );
    reveal_strlit("");
    assert forall|x: Seq<char>, y: Seq<char>|
        #[trigger] super::filters::owner_is(a, x) && #[trigger] super::filters::owner_is(
            b,
            y,
        ) implies x == a.owner_text() && y == b.owner_text() by {
        assert(x =~= a.owner_text());
        assert(y =~= b.owner_text());
    }
}

/// The events on the screen stand in the order of the column that was chosen,
/// by their own fields, the newest first by age and the most frequent by count;
/// then by namespace and name.
pub proof fn law_the_events_shown_are_sorted(list: ListView, rows: Vec<K8sEvent>, i: int, j: int)
    requires
        0 <= i < j < list.spoiled().refiltered(&rows).rows.visible.len(),
    ensures
        ({
            let shown = list.spoiled().refiltered(&rows).rows.visible;
            let a = rows@[usize_of(shown[i])];
            let b = rows@[usize_of(shown[j])];
            let (by, descending) = (list.sort, list.descending);
            &&& by == ColumnId::Age ==> in_time(a.last, b.last, !descending)
            &&& by == ColumnId::K8sType ==> in_words(a.kind@, b.kind@, descending)
            &&& by == ColumnId::Reason ==> in_words(a.reason@, b.reason@, descending)
            &&& by == ColumnId::Object ==> in_words(a.object.name@, b.object.name@, descending)
            &&& by == ColumnId::Message ==> in_words(a.message@, b.message@, descending)
            &&& by == ColumnId::Count ==> if descending {
                a.count <= b.count
            } else {
                b.count <= a.count
            }
            // Where that tells nothing, by namespace and name.
            &&& ({
                ||| by == ColumnId::Age && a.last == b.last
                ||| by == ColumnId::K8sType && same_letters(a.kind@, b.kind@)
                ||| by == ColumnId::Reason && same_letters(a.reason@, b.reason@)
                ||| by == ColumnId::Count && a.count == b.count
            }) ==> !named_before(
                b.namespace@ + "/"@ + b.name@,
                a.namespace@ + "/"@ + a.name@,
            )
        }),
{
    lemma_list_in_order(list, &rows, i, j);
    let shown = list.spoiled().refiltered(&rows).rows.visible;
    let a = rows@[usize_of(shown[i])];
    let b = rows@[usize_of(shown[j])];
    let descending = list.descending;
    lemma_in_time(a.last, b.last, descending);
    lemma_in_names(a.kind@, b.kind@, descending);
    lemma_in_names(a.reason@, b.reason@, descending);
    lemma_in_names(a.object.name@, b.object.name@, descending);
    lemma_in_names(a.message@, b.message@, descending);
}

/// The configmaps on the screen stand in the order of the column that was
/// chosen, by their own fields, the newest first by age and the fullest by keys;
/// then by namespace and name.
pub proof fn law_the_maps_shown_are_sorted(list: ListView, rows: Vec<ConfigMap>, i: int, j: int)
    requires
        0 <= i < j < list.spoiled().refiltered(&rows).rows.visible.len(),
    ensures
        ({
            let shown = list.spoiled().refiltered(&rows).rows.visible;
            let a = rows@[usize_of(shown[i])];
            let b = rows@[usize_of(shown[j])];
            let (by, descending) = (list.sort, list.descending);
            &&& by == ColumnId::Age ==> in_time(a.created, b.created, !descending)
            &&& by == ColumnId::Name ==> in_words(a.name@, b.name@, descending)
            &&& by == ColumnId::Namespace ==> in_words(a.namespace@, b.namespace@, descending)
            &&& by == ColumnId::Keys ==> if descending {
                a.data@.len() <= b.data@.len()
            } else {
                b.data@.len() <= a.data@.len()
            }
            // Where that tells nothing, by namespace and name.
            &&& ({
                ||| by == ColumnId::Age && a.created == b.created
                ||| by == ColumnId::Name && same_letters(a.name@, b.name@)
                ||| by == ColumnId::Keys && a.data@.len() == b.data@.len()
            }) ==> !named_before(
                b.namespace@ + "/"@ + b.name@,
                a.namespace@ + "/"@ + a.name@,
            )
        }),
{
    lemma_list_in_order(list, &rows, i, j);
    let shown = list.spoiled().refiltered(&rows).rows.visible;
    let a = rows@[usize_of(shown[i])];
    let b = rows@[usize_of(shown[j])];
    let descending = list.descending;
    lemma_in_time(a.created, b.created, descending);
    lemma_in_names(a.name@, b.name@, descending);
    lemma_in_names(a.namespace@, b.namespace@, descending);
}

/// A cluster's secrets on the screen stand in the order of the column that was
/// chosen, by their own fields.
pub proof fn law_the_metas_shown_are_sorted(list: ListView, rows: Vec<SecretMeta>, i: int, j: int)
    requires
        0 <= i < j < list.spoiled().refiltered(&rows).rows.visible.len(),
    ensures
        ({
            let shown = list.spoiled().refiltered(&rows).rows.visible;
            let a = rows@[usize_of(shown[i])];
            let b = rows@[usize_of(shown[j])];
            let (by, descending) = (list.sort, list.descending);
            &&& by == ColumnId::Age ==> in_time(a.created, b.created, !descending)
            &&& by == ColumnId::Name ==> in_words(a.name@, b.name@, descending)
            &&& by == ColumnId::Namespace ==> in_words(a.namespace@, b.namespace@, descending)
            &&& by == ColumnId::Keys ==> if descending {
                a.keys@.len() <= b.keys@.len()
            } else {
                b.keys@.len() <= a.keys@.len()
            }
            // Where that tells nothing, by namespace and name.
            &&& ({
                ||| by == ColumnId::Age && a.created == b.created
                ||| by == ColumnId::Name && same_letters(a.name@, b.name@)
                ||| by == ColumnId::Keys && a.keys@.len() == b.keys@.len()
            }) ==> !named_before(
                b.namespace@ + "/"@ + b.name@,
                a.namespace@ + "/"@ + a.name@,
            )
            &&& by == ColumnId::K8sType ==> in_words(a.kind@, b.kind@, descending)
        }),
{
    lemma_list_in_order(list, &rows, i, j);
    let shown = list.spoiled().refiltered(&rows).rows.visible;
    let a = rows@[usize_of(shown[i])];
    let b = rows@[usize_of(shown[j])];
    let descending = list.descending;
    lemma_in_time(a.created, b.created, descending);
    lemma_in_names(a.name@, b.name@, descending);
    lemma_in_names(a.namespace@, b.namespace@, descending);
    lemma_in_names(a.kind@, b.kind@, descending);
}

} // verus!
