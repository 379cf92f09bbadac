//! How one row stands to another, and the rows of a table put in order.

use std::cmp::Ordering;
use vstd::prelude::*;

use crate::kube::said;
use crate::text::{chars_of, int_of, known_of, length_of, lower, place, to_lower, usize_of};
use crate::timestamp::{stamp_backwards, stamp_number, Timestamp};

verus! {

// ---------------------------------------------------------------------------
// Orderings
// ---------------------------------------------------------------------------

/// The same comparison, asked the other way round.
pub open spec fn reverse_order(o: Ordering) -> Ordering {
    match o {
        Ordering::Less => Ordering::Greater,
        Ordering::Equal => Ordering::Equal,
        Ordering::Greater => Ordering::Less,
    }
}

/// The first comparison, or the second where the first tells nothing.
pub open spec fn then_order(first: Ordering, second: Ordering) -> Ordering {
    if first == Ordering::Equal {
        second
    } else {
        first
    }
}

/// The comparison, turned round when `descending`.
pub open spec fn turn_order(o: Ordering, descending: bool) -> Ordering {
    if descending {
        reverse_order(o)
    } else {
        o
    }
}

/// A comparison that puts any rows in an order: two rows asked either way
/// round agree, and what stands between two rows stands between them.
pub open spec fn is_total_order<T>(f: spec_fn(T, T) -> Ordering) -> bool {
    &&& forall|a: T, b: T| #[trigger] f(a, b) == reverse_order(f(b, a))
    &&& forall|a: T, b: T, c: T|
        (#[trigger] f(a, b)) != Ordering::Greater && (#[trigger] f(b, c)) != Ordering::Greater ==> f(
            a,
            c,
        ) != Ordering::Greater
}

pub proof fn lemma_total_strict<T>(f: spec_fn(T, T) -> Ordering, a: T, b: T, c: T)
    requires
        is_total_order(f),
        f(a, b) != Ordering::Greater,
        f(b, c) != Ordering::Greater,
    ensures
        f(a, c) == then_order(f(a, b), f(b, c)),
{
    assert(f(a, c) != Ordering::Greater);
    assert(f(b, a) == reverse_order(f(a, b)));
    assert(f(c, b) == reverse_order(f(b, c)));
    assert(f(c, a) == reverse_order(f(a, c)));
    if f(a, c) == Ordering::Equal {
        // c, a, b in order, and b, c, a in order.
        assert(f(c, b) != Ordering::Greater);
        assert(f(b, a) != Ordering::Greater);
    } else if f(a, b) == Ordering::Equal && f(b, c) == Ordering::Equal {
        assert(f(c, a) != Ordering::Greater);
    }
}

pub proof fn lemma_total_then<T>(
    f: spec_fn(T, T) -> Ordering,
    g: spec_fn(T, T) -> Ordering,
    both: spec_fn(T, T) -> Ordering,
)
    requires
        is_total_order(f),
        is_total_order(g),
        forall|a: T, b: T| #[trigger] both(a, b) == then_order(f(a, b), g(a, b)),
    ensures
        is_total_order(both),
{
    assert forall|a: T, b: T| #[trigger] both(a, b) == reverse_order(both(b, a)) by {
        assert(f(a, b) == reverse_order(f(b, a)));
        assert(g(a, b) == reverse_order(g(b, a)));
    }
    assert forall|a: T, b: T, c: T|
        (#[trigger] both(a, b)) != Ordering::Greater && (#[trigger] both(b, c))
            != Ordering::Greater implies both(a, c) != Ordering::Greater by {
        assert(f(a, b) != Ordering::Greater && f(b, c) != Ordering::Greater);
        lemma_total_strict(f, a, b, c);
        if f(a, c) == Ordering::Equal {
            assert(g(a, b) != Ordering::Greater && g(b, c) != Ordering::Greater);
        }
    }
}

/// A comparison of rows by what each of them says.
pub proof fn lemma_total_by<T, K>(
    f: spec_fn(K, K) -> Ordering,
    key: spec_fn(T) -> K,
    g: spec_fn(T, T) -> Ordering,
)
    requires
        is_total_order(f),
        forall|a: T, b: T| #[trigger] g(a, b) == f(key(a), key(b)),
    ensures
        is_total_order(g),
{
    assert forall|a: T, b: T| #[trigger] g(a, b) == reverse_order(g(b, a)) by {
        assert(f(key(a), key(b)) == reverse_order(f(key(b), key(a))));
    }
    assert forall|a: T, b: T, c: T|
        (#[trigger] g(a, b)) != Ordering::Greater && (#[trigger] g(b, c))
            != Ordering::Greater implies g(a, c) != Ordering::Greater by {
        assert(f(key(a), key(b)) != Ordering::Greater);
        assert(f(key(b), key(c)) != Ordering::Greater);
    }
}

/// The comparison turned round when `descending`.
pub fn flip(ordering: Ordering, descending: bool) -> (r: Ordering)
    ensures
        r == turn_order(ordering, descending),
{
    if descending {
        match ordering {
            Ordering::Less => Ordering::Greater,
            Ordering::Equal => Ordering::Equal,
            Ordering::Greater => Ordering::Less,
        }
    } else {
        ordering
    }
}

/// The first comparison, or the second where the first tells nothing.
pub fn then_with(first: Ordering, second: Ordering) -> (r: Ordering)
    ensures
        r == then_order(first, second),
{
    match first {
        Ordering::Equal => second,
        Ordering::Less => Ordering::Less,
        Ordering::Greater => Ordering::Greater,
    }
}

// ---------------------------------------------------------------------------
// Numbers, stamps and words
// ---------------------------------------------------------------------------

pub open spec fn order_by_number(a: int, b: int) -> Ordering {
    if a < b {
        Ordering::Less
    } else if a == b {
        Ordering::Equal
    } else {
        Ordering::Greater
    }
}

/// One number against another, the missing one last whichever way the order
/// is turned.
pub open spec fn order_by_known(a: Option<int>, b: Option<int>, descending: bool) -> Ordering {
    match (a, b) {
        (Some(x), Some(y)) => turn_order(order_by_number(x, y), descending),
        (Some(_), None) => Ordering::Less,
        (None, Some(_)) => Ordering::Greater,
        (None, None) => Ordering::Equal,
    }
}

/// Letter by letter, a word before every longer word that begins with it.
pub open spec fn order_by_letter(a: Seq<char>, b: Seq<char>) -> Ordering
    decreases a.len(),
{
    if a.len() == 0 {
        if b.len() == 0 {
            Ordering::Equal
        } else {
            Ordering::Less
        }
    } else if b.len() == 0 {
        Ordering::Greater
    } else if a[0] < b[0] {
        Ordering::Less
    } else if b[0] < a[0] {
        Ordering::Greater
    } else {
        order_by_letter(a.skip(1), b.skip(1))
    }
}

proof fn lemma_by_letter_reversed(a: Seq<char>, b: Seq<char>)
    ensures
        order_by_letter(a, b) == reverse_order(order_by_letter(b, a)),
    decreases a.len(),
{
    if a.len() > 0 && b.len() > 0 {
        lemma_by_letter_reversed(a.skip(1), b.skip(1));
    }
}

proof fn lemma_by_letter_transitive(a: Seq<char>, b: Seq<char>, c: Seq<char>)
    requires
        order_by_letter(a, b) != Ordering::Greater,
        order_by_letter(b, c) != Ordering::Greater,
    ensures
        order_by_letter(a, c) != Ordering::Greater,
    decreases a.len(),
{
    if a.len() > 0 && b.len() > 0 && c.len() > 0 {
        if a[0] == b[0] && b[0] == c[0] {
            lemma_by_letter_transitive(a.skip(1), b.skip(1), c.skip(1));
        }
    }
}

/// Two names, compared without regard to the case of `A` to `Z`.
pub open spec fn order_by_name(a: Seq<char>, b: Seq<char>) -> Ordering {
    order_by_letter(lower(a), lower(b))
}

/// Two names are told apart exactly when they differ in more than the case
/// of their letters.
pub proof fn lemma_by_letter_equal(a: Seq<char>, b: Seq<char>)
    ensures
        order_by_letter(a, b) == Ordering::Equal <==> a == b,
    decreases a.len(),
{
    if a.len() > 0 && b.len() > 0 {
        lemma_by_letter_equal(a.skip(1), b.skip(1));
        if a[0] == b[0] && a.skip(1) == b.skip(1) {
            assert(a =~= seq![a[0]] + a.skip(1));
            assert(b =~= seq![b[0]] + b.skip(1));
        }
    } else {
        if a.len() == 0 && b.len() == 0 {
            assert(a =~= b);
        }
    }
}

/// Two unsigned numbers.
pub fn compare_numbers(a: u64, b: u64) -> (r: Ordering)
    ensures
        r == order_by_number(int_of(a), int_of(b)),
{
    if a < b {
        Ordering::Less
    } else if a == b {
        Ordering::Equal
    } else {
        Ordering::Greater
    }
}

/// Two lengths.
pub fn compare_sizes(a: usize, b: usize) -> (r: Ordering)
    ensures
        r == order_by_number(usize_of(a), usize_of(b)),
{
    if a < b {
        Ordering::Less
    } else if a == b {
        Ordering::Equal
    } else {
        Ordering::Greater
    }
}

/// Two names, compared without regard to ASCII case.
pub fn cmp_ignore_ascii_case(left: &str, right: &str) -> (r: Ordering)
    ensures
        r == order_by_name(left@, right@),
{
    let low = to_lower(left);
    let high = to_lower(right);
    compare_letters(low.as_str(), high.as_str())
}

/// Two texts, letter by letter.
pub fn compare_letters(left: &str, right: &str) -> (r: Ordering)
    ensures
        r == order_by_letter(left@, right@),
{
    let a = chars_of(left);
    let b = chars_of(right);
    let mut i: usize = 0;
    proof {
        assert(a@.skip(0) =~= a@);
        assert(b@.skip(0) =~= b@);
    }
    while i < a.len() && i < b.len()
        invariant
            i <= a@.len(),
            i <= b@.len(),
            a@ == left@,
            b@ == right@,
            order_by_letter(a@, b@) == order_by_letter(a@.skip(usize_of(i)), b@.skip(usize_of(i))),
        decreases a@.len() - i,
    {
        if a[i] < b[i] {
            return Ordering::Less;
        }
        if b[i] < a[i] {
            return Ordering::Greater;
        }
        proof {
            assert(a@.skip(usize_of(i)).skip(1) =~= a@.skip(i + 1));
            assert(b@.skip(usize_of(i)).skip(1) =~= b@.skip(i + 1));
        }
        i = i + 1;
    }
    if i < a.len() {
        Ordering::Greater
    } else if i < b.len() {
        Ordering::Less
    } else {
        Ordering::Equal
    }
}

// ---------------------------------------------------------------------------
// Cells
// ---------------------------------------------------------------------------

/// What a row says in one column, as far as sorting by it goes.
pub enum Cell {
    /// Nothing to sort by.
    Blank,
    /// A name, compared without regard to case.
    Name(Seq<char>),
    /// A text, compared letter by letter, a missing one first.
    Letters(Option<Seq<char>>),
    /// A number.
    Number(int),
    /// Two numbers, the first one first.
    Pair(int, int),
    /// A number that may not have arrived, which is last whichever way the
    /// sort points.
    Known(Option<int>),
    /// A name that may be missing, compared without regard to case, a missing
    /// one last whichever way the sort points.
    Said(Option<Seq<char>>),
}

/// A text to sort by; an empty one is missing.
pub open spec fn filled(text: Seq<char>) -> Cell {
    Cell::Said(
        if text.len() == 0 {
            None
        } else {
            Some(text)
        },
    )
}

impl Cell {
    /// Which kind of cell it is. A column holds one kind only.
    pub open spec fn kind(self) -> int {
        match self {
            Cell::Blank => 0,
            Cell::Name(_) => 1,
            Cell::Letters(_) => 2,
            Cell::Number(_) => 3,
            Cell::Pair(_, _) => 4,
            Cell::Known(_) => 5,
            Cell::Said(_) => 6,
        }
    }
}

/// Two texts that may be missing, a missing one first.
pub open spec fn order_by_letters(a: Option<Seq<char>>, b: Option<Seq<char>>) -> Ordering {
    match (a, b) {
        (Some(a), Some(b)) => order_by_letter(a, b),
        (Some(_), None) => Ordering::Greater,
        (None, Some(_)) => Ordering::Less,
        (None, None) => Ordering::Equal,
    }
}

/// Two names that may be missing, a missing one last whichever way the order
/// is turned.
pub open spec fn order_by_said(
    a: Option<Seq<char>>,
    b: Option<Seq<char>>,
    descending: bool,
) -> Ordering {
    match (a, b) {
        (Some(x), Some(y)) => turn_order(order_by_name(x, y), descending),
        (Some(_), None) => Ordering::Less,
        (None, Some(_)) => Ordering::Greater,
        (None, None) => Ordering::Equal,
    }
}

/// One cell against another, the sort pointing one way or the other.
pub open spec fn order_by_cell(a: Cell, b: Cell, descending: bool) -> Ordering {
    match (a, b) {
        (Cell::Blank, Cell::Blank) => Ordering::Equal,
        (Cell::Name(a), Cell::Name(b)) => turn_order(order_by_name(a, b), descending),
        (Cell::Letters(a), Cell::Letters(b)) => turn_order(order_by_letters(a, b), descending),
        (Cell::Number(a), Cell::Number(b)) => turn_order(order_by_number(a, b), descending),
        (Cell::Pair(a, c), Cell::Pair(b, d)) => turn_order(
            then_order(order_by_number(a, b), order_by_number(c, d)),
            descending,
        ),
        (Cell::Known(a), Cell::Known(b)) => order_by_known(a, b, descending),
        (Cell::Said(a), Cell::Said(b)) => order_by_said(a, b, descending),
        _ => order_by_number(a.kind(), b.kind()),
    }
}

proof fn lemma_letters(a: Option<Seq<char>>, b: Option<Seq<char>>, c: Option<Seq<char>>)
    ensures
        order_by_letters(a, b) == reverse_order(order_by_letters(b, a)),
        order_by_letters(a, b) != Ordering::Greater && order_by_letters(b, c) != Ordering::Greater
            ==> order_by_letters(a, c) != Ordering::Greater,
{
    if a is Some && b is Some {
        lemma_by_letter_reversed(a->0, b->0);
        if c is Some && order_by_letters(a, b) != Ordering::Greater && order_by_letters(b, c)
            != Ordering::Greater {
            lemma_by_letter_transitive(a->0, b->0, c->0);
        }
    }
}

proof fn lemma_cell_reversed(a: Cell, b: Cell, descending: bool)
    ensures
        order_by_cell(a, b, descending) == reverse_order(order_by_cell(b, a, descending)),
{
    match (a, b) {
        (Cell::Name(x), Cell::Name(y)) => lemma_by_letter_reversed(lower(x), lower(y)),
        (Cell::Letters(x), Cell::Letters(y)) => lemma_letters(x, y, x),
        (Cell::Said(Some(x)), Cell::Said(Some(y))) => {
            lemma_by_letter_reversed(lower(x), lower(y));
        },
        _ => {},
    }
}

proof fn lemma_cell_transitive(a: Cell, b: Cell, c: Cell, descending: bool)
    requires
        order_by_cell(a, b, descending) != Ordering::Greater,
        order_by_cell(b, c, descending) != Ordering::Greater,
    ensures
        order_by_cell(a, c, descending) != Ordering::Greater,
    decreases if a is Said {
            1int
        } else {
            0
        },
{
    match (a, b, c) {
        (Cell::Name(x), Cell::Name(y), Cell::Name(z)) => {
            lemma_by_letter_reversed(lower(x), lower(y));
            lemma_by_letter_reversed(lower(y), lower(z));
            lemma_by_letter_reversed(lower(x), lower(z));
            if descending {
                lemma_by_letter_transitive(lower(z), lower(y), lower(x));
            } else {
                lemma_by_letter_transitive(lower(x), lower(y), lower(z));
            }
        },
        (Cell::Letters(x), Cell::Letters(y), Cell::Letters(z)) => {
            lemma_letters(x, y, z);
            lemma_letters(z, y, x);
            lemma_letters(x, z, y);
            lemma_letters(y, z, x);
        },
        (Cell::Said(Some(x)), Cell::Said(Some(y)), Cell::Said(Some(z))) => {
            lemma_cell_transitive(Cell::Name(x), Cell::Name(y), Cell::Name(z), descending);
        },
        _ => {},
    }
}

/// Cells can be put in order, whichever way the sort points.
pub proof fn lemma_order_by_cell_total(descending: bool)
    ensures
        is_total_order(|a: Cell, b: Cell| order_by_cell(a, b, descending)),
{
    let g = |a: Cell, b: Cell| order_by_cell(a, b, descending);
    assert forall|a: Cell, b: Cell| #[trigger] g(a, b) == reverse_order(g(b, a)) by {
        lemma_cell_reversed(a, b, descending);
    }
    assert forall|a: Cell, b: Cell, c: Cell|
        (#[trigger] g(a, b)) != Ordering::Greater && (#[trigger] g(b, c))
            != Ordering::Greater implies g(a, c) != Ordering::Greater by {
        lemma_cell_transitive(a, b, c, descending);
    }
}

/// Two names, the sort pointing one way or the other.
pub fn compare_names(a: &str, b: &str, descending: bool) -> (r: Ordering)
    ensures
        r == order_by_cell(Cell::Name(a@), Cell::Name(b@), descending),
{
    flip(cmp_ignore_ascii_case(a, b), descending)
}

/// Two names that may be empty, an empty one last whichever way the sort
/// points.
pub fn compare_filled(a: &str, b: &str, descending: bool) -> (r: Ordering)
    ensures
        r == order_by_cell(filled(a@), filled(b@), descending),
{
    match (a.is_empty(), b.is_empty()) {
        (false, false) => flip(cmp_ignore_ascii_case(a, b), descending),
        (false, true) => Ordering::Less,
        (true, false) => Ordering::Greater,
        (true, true) => Ordering::Equal,
    }
}

/// Two texts, letter by letter, the sort pointing one way or the other.
pub fn compare_texts(a: &str, b: &str, descending: bool) -> (r: Ordering)
    ensures
        r == order_by_cell(Cell::Letters(Some(a@)), Cell::Letters(Some(b@)), descending),
{
    flip(compare_letters(a, b), descending)
}

/// Two texts that may be missing, a missing one first.
pub fn compare_optional(a: &Option<String>, b: &Option<String>, descending: bool) -> (r: Ordering)
    ensures
        r == order_by_cell(Cell::Letters(said(*a)), Cell::Letters(said(*b)), descending),
{
    let ordering = match (a, b) {
        (Some(a), Some(b)) => compare_letters(a.as_str(), b.as_str()),
        (Some(_), None) => Ordering::Greater,
        (None, Some(_)) => Ordering::Less,
        (None, None) => Ordering::Equal,
    };
    flip(ordering, descending)
}

/// Two counts that may not have arrived.
pub fn compare_counts(a: Option<u64>, b: Option<u64>, descending: bool) -> (r: Ordering)
    ensures
        r == order_by_cell(Cell::Known(known_of(a)), Cell::Known(known_of(b)), descending),
{
    match (a, b) {
        (Some(x), Some(y)) => flip(compare_numbers(x, y), descending),
        (Some(_), None) => Ordering::Less,
        (None, Some(_)) => Ordering::Greater,
        (None, None) => Ordering::Equal,
    }
}

/// Two moments that may not be set.
pub fn compare_stamps(a: Option<Timestamp>, b: Option<Timestamp>, descending: bool) -> (r: Ordering)
    ensures
        r == order_by_cell(Cell::Known(stamp_number(a)), Cell::Known(stamp_number(b)), descending),
        r == order_by_cell(
            Cell::Known(stamp_backwards(a)),
            Cell::Known(stamp_backwards(b)),
            !descending,
        ),
{
    match (a, b) {
        (Some(x), Some(y)) => {
            let ordering = if x.seconds < y.seconds {
                Ordering::Less
            } else if x.seconds == y.seconds {
                Ordering::Equal
            } else {
                Ordering::Greater
            };
            flip(ordering, descending)
        },
        (Some(_), None) => Ordering::Less,
        (None, Some(_)) => Ordering::Greater,
        (None, None) => Ordering::Equal,
    }
}

/// What has not arrived is last, whichever way the sort points.
pub proof fn law_the_unknown_is_last(known: int, descending: bool)
    ensures
        order_by_cell(Cell::Known(Some(known)), Cell::Known(None), descending) == Ordering::Less,
{
}

/// So is a row with nothing in a column of text.
pub proof fn law_the_empty_is_last(text: Seq<char>, descending: bool)
    requires
        text.len() > 0,
    ensures
        order_by_cell(filled(text), filled(Seq::empty()), descending) == Ordering::Less,
        order_by_cell(filled(Seq::empty()), filled(text), descending) == Ordering::Greater,
{
}

/// The two ways a sort can point put the rest the other way round.
pub proof fn law_turning_a_sort_reverses_it(a: Cell, b: Cell, descending: bool)
    requires
        a.kind() == b.kind(),
        a matches Cell::Known(x) ==> x is Some && b->Known_0 is Some,
        a matches Cell::Said(x) ==> x is Some && b->Said_0 is Some,
    ensures
        order_by_cell(a, b, !descending) == reverse_order(order_by_cell(a, b, descending)),
{
}

// ---------------------------------------------------------------------------
// Rows in order
// ---------------------------------------------------------------------------

/// Rows that stand in an order, each named by its place in the list that
/// holds them.
pub trait Arrangement {
    /// How many rows there are.
    spec fn size(&self) -> int;

    /// How one row stands to another.
    spec fn rank(&self, a: int, b: int) -> Ordering;

    proof fn rank_is_total(&self)
        ensures
            is_total_order(|a: int, b: int| self.rank(a, b)),
    ;

    fn compare_rows(&self, a: usize, b: usize) -> (r: Ordering)
        requires
            a < self.size(),
            b < self.size(),
        ensures
            r == self.rank(usize_of(a), usize_of(b)),
    ;
}

/// Whether row `a` is put in front of row `b`: by how they stand, and where
/// that tells nothing, as they came.
pub open spec fn in_front<A: Arrangement>(rows: &A, a: int, b: int) -> bool {
    rows.rank(a, b) == Ordering::Less || (rows.rank(a, b) == Ordering::Equal && a < b)
}

/// A list of rows, each in front of every later one.
pub open spec fn arranged<A: Arrangement>(rows: &A, list: Seq<usize>) -> bool {
    forall|i: int, j: int|
        0 <= i < j < list.len() ==> in_front(
            rows,
            usize_of(#[trigger] list[i]),
            usize_of(#[trigger] list[j]),
        )
}

proof fn lemma_in_front_transitive<A: Arrangement>(rows: &A, a: int, b: int, c: int)
    requires
        in_front(rows, a, b),
        in_front(rows, b, c),
    ensures
        in_front(rows, a, c),
{
    rows.rank_is_total();
    let f = |x: int, y: int| rows.rank(x, y);
    assert(f(a, b) != Ordering::Greater);
    assert(f(b, c) != Ordering::Greater);
    lemma_total_strict(f, a, b, c);
    assert(f(a, c) == rows.rank(a, c));
}

proof fn lemma_in_front_one_way<A: Arrangement>(rows: &A, a: int, b: int)
    requires
        a != b,
    ensures
        in_front(rows, a, b) <==> !in_front(rows, b, a),
{
    rows.rank_is_total();
    let f = |x: int, y: int| rows.rank(x, y);
    assert(f(a, b) == reverse_order(f(b, a)));
}

/// Two sorted halves of the rows as one sorted list.
fn merge<A: Arrangement>(rows: &A, left: &Vec<usize>, right: &Vec<usize>) -> (r: Vec<usize>)
    requires
        arranged(rows, left@),
        arranged(rows, right@),
        forall|i: int| 0 <= i < left@.len() ==> #[trigger] left@[i] < rows.size(),
        forall|i: int| 0 <= i < right@.len() ==> #[trigger] right@[i] < rows.size(),
        forall|i: int, j: int|
            0 <= i < left@.len() && 0 <= j < right@.len() ==> #[trigger] left@[i]
                < #[trigger] right@[j],
    ensures
        arranged(rows, r@),
        r@.len() == left@.len() + right@.len(),
        r@.to_multiset() == left@.to_multiset().add(right@.to_multiset()),
{
    broadcast use vstd::seq_lib::group_to_multiset_ensures;

    let mut out: Vec<usize> = Vec::new();
    let mut i: usize = 0;
    let mut j: usize = 0;
    proof {
        assert(left@.take(0) =~= Seq::<usize>::empty());
        assert(right@.take(0) =~= Seq::<usize>::empty());
        assert(out@.to_multiset() =~= left@.take(0).to_multiset().add(right@.take(0).to_multiset()));
    }
    while i < left.len() || j < right.len()
        invariant
            i <= left@.len(),
            j <= right@.len(),
            arranged(rows, left@),
            arranged(rows, right@),
            forall|k: int| 0 <= k < left@.len() ==> #[trigger] left@[k] < rows.size(),
            forall|k: int| 0 <= k < right@.len() ==> #[trigger] right@[k] < rows.size(),
            forall|k: int, l: int|
                0 <= k < left@.len() && 0 <= l < right@.len() ==> #[trigger] left@[k]
                    < #[trigger] right@[l],
            arranged(rows, out@),
            out@.len() == i + j,
            out@.to_multiset() == left@.take(usize_of(i)).to_multiset().add(
                right@.take(usize_of(j)).to_multiset(),
            ),
            forall|k: int, l: int|
                0 <= k < out@.len() && i <= l < left@.len() ==> in_front(
                    rows,
                    usize_of(#[trigger] out@[k]),
                    usize_of(#[trigger] left@[l]),
                ),
            forall|k: int, l: int|
                0 <= k < out@.len() && j <= l < right@.len() ==> in_front(
                    rows,
                    usize_of(#[trigger] out@[k]),
                    usize_of(#[trigger] right@[l]),
                ),
        decreases left@.len() + right@.len() - i - j,
    {
        let from_left = if i == left.len() {
            false
        } else if j == right.len() {
            true
        } else {
            match rows.compare_rows(left[i], right[j]) {
                Ordering::Greater => false,
                _ => true,
            }
        };
        if from_left {
            let ghost moved = left@[usize_of(i)];
            proof {
                assert(left@.take(i + 1) =~= left@.take(usize_of(i)).push(moved));
                if j < right@.len() {
                    assert(left@[usize_of(i)] < right@[usize_of(j)]);
                    assert forall|l: int| j <= l < right@.len() implies in_front(
                        rows,
                        usize_of(moved),
                        usize_of(#[trigger] right@[l]),
                    ) by {
                        if j < l {
                            assert(in_front(rows, usize_of(right@[usize_of(j)]), usize_of(right@[l])));
                            lemma_in_front_transitive(
                                rows,
                                usize_of(moved),
                                usize_of(right@[usize_of(j)]),
                                usize_of(right@[l]),
                            );
                        }
                    }
                }
            }
            proof {
                vstd::seq_lib::to_multiset_build(out@, moved);
                vstd::seq_lib::to_multiset_build(left@.take(usize_of(i)), moved);
            }
            out.push(left[i]);
            i = i + 1;
            proof {
                assert(out@.to_multiset() =~= left@.take(usize_of(i)).to_multiset().add(
                    right@.take(usize_of(j)).to_multiset(),
                ));
            }
        } else {
            let ghost moved = right@[usize_of(j)];
            proof {
                assert(right@.take(j + 1) =~= right@.take(usize_of(j)).push(moved));
                if i < left@.len() {
                    assert(left@[usize_of(i)] < right@[usize_of(j)]);
                    lemma_in_front_one_way(rows, usize_of(moved), usize_of(left@[usize_of(i)]));
                    assert forall|l: int| i <= l < left@.len() implies in_front(
                        rows,
                        usize_of(moved),
                        usize_of(#[trigger] left@[l]),
                    ) by {
                        if i < l {
                            assert(in_front(rows, usize_of(left@[usize_of(i)]), usize_of(left@[l])));
                            lemma_in_front_transitive(
                                rows,
                                usize_of(moved),
                                usize_of(left@[usize_of(i)]),
                                usize_of(left@[l]),
                            );
                        }
                    }
                }
            }
            proof {
                vstd::seq_lib::to_multiset_build(out@, moved);
                vstd::seq_lib::to_multiset_build(right@.take(usize_of(j)), moved);
            }
            out.push(right[j]);
            j = j + 1;
            proof {
                assert(out@.to_multiset() =~= left@.take(usize_of(i)).to_multiset().add(
                    right@.take(usize_of(j)).to_multiset(),
                ));
            }
        }
    }
    proof {
        assert(left@.take(left@.len() - 0) =~= left@);
        assert(right@.take(right@.len() - 0) =~= right@);
    }
    out
}

/// The places `from`, `from + 1` up to `to`, not with it.
pub open spec fn places(from: int, to: int) -> Seq<usize> {
    Seq::new((to - from) as nat, |i: int| place(from + i))
}

/// The rows from `from` to `to`, in order.
fn sort_range<A: Arrangement>(rows: &A, from: usize, to: usize) -> (r: Vec<usize>)
    requires
        from <= to <= rows.size(),
    ensures
        arranged(rows, r@),
        r@.len() == to - from,
        r@.to_multiset() == places(usize_of(from), usize_of(to)).to_multiset(),
    decreases to - from,
{
    broadcast use vstd::seq_lib::group_to_multiset_ensures;

    if from == to {
        let r: Vec<usize> = Vec::new();
        proof {
            assert(r@ =~= places(usize_of(from), usize_of(to)));
        }
        return r;
    }
    if to - from == 1 {
        let mut r: Vec<usize> = Vec::new();
        r.push(from);
        proof {
            assert(r@ =~= places(usize_of(from), usize_of(to)));
        }
        return r;
    }
    let middle: usize = from + (to - from) / 2;
    let left = sort_range(rows, from, middle);
    let right = sort_range(rows, middle, to);
    proof {
        lemma_of_places(left@, usize_of(from), usize_of(middle));
        lemma_of_places(right@, usize_of(middle), usize_of(to));
        let a = places(usize_of(from), usize_of(middle));
        let b = places(usize_of(middle), usize_of(to));
        assert(a + b =~= places(usize_of(from), usize_of(to)));
        vstd::seq_lib::lemma_multiset_commutative(a, b);
    }
    merge(rows, &left, &right)
}

/// A list with the rows of a range holds exactly the places of that range.
proof fn lemma_of_places(list: Seq<usize>, from: int, to: int)
    requires
        0 <= from <= to <= usize::MAX,
        list.to_multiset() == places(from, to).to_multiset(),
    ensures
        list.len() == to - from,
        forall|i: int| 0 <= i < list.len() ==> from <= usize_of(#[trigger] list[i]) < to,
        forall|n: usize| from <= n < to ==> #[trigger] list.contains(n),
{
    broadcast use vstd::seq_lib::group_to_multiset_ensures;

    let all = places(from, to);
    assert(list.to_multiset().len() == list.len());
    assert(all.to_multiset().len() == all.len());
    assert forall|i: int| 0 <= i < list.len() implies from <= usize_of(#[trigger] list[i]) < to by {
        assert(list.contains(list[i]));
        assert(list.to_multiset().count(list[i]) > 0);
        assert(all.contains(list[i]));
    }
    assert forall|n: usize| from <= n < to implies #[trigger] list.contains(n) by {
        assert(all[n - from] == n);
        assert(all.contains(n));
        assert(all.to_multiset().count(n) > 0);
        assert(list.to_multiset().count(n) > 0);
    }
}

/// The list that holds each of the `count` first rows once, in order.
pub open spec fn in_order<A: Arrangement>(rows: &A, count: int, list: Seq<usize>) -> bool {
    &&& list.len() == count
    &&& forall|i: int| 0 <= i < list.len() ==> usize_of(#[trigger] list[i]) < count
    &&& arranged(rows, list)
}

/// Every row once, in order: where two rows stand level, as they came.
pub fn arrange<A: Arrangement>(rows: &A, count: usize) -> (r: Vec<usize>)
    requires
        count <= rows.size(),
    ensures
        in_order(rows, usize_of(count), r@),
        forall|n: usize| n < count ==> #[trigger] r@.contains(n),
{
    let r = sort_range(rows, 0, count);
    proof {
        lemma_of_places(r@, 0, usize_of(count));
    }
    r
}

/// A list in order holds no row twice.
pub proof fn lemma_in_order_once<A: Arrangement>(rows: &A, count: int, list: Seq<usize>)
    requires
        in_order(rows, count, list),
    ensures
        list.no_duplicates(),
{
    assert forall|i: int, j: int| 0 <= i < j < list.len() implies list[i] != list[j] by {
        let a = usize_of(list[i]);
        assert(in_front(rows, a, usize_of(list[j])));
        rows.rank_is_total();
        let f = |x: int, y: int| rows.rank(x, y);
        assert(f(a, a) == reverse_order(f(a, a)));
    }
}

/// There is one order only: two lists of the same rows in order are the same
/// list.
pub proof fn law_one_order<A: Arrangement>(rows: &A, count: int, a: Seq<usize>, b: Seq<usize>)
    requires
        in_order(rows, count, a),
        in_order(rows, count, b),
        forall|n: usize| n < count ==> #[trigger] a.contains(n),
        forall|n: usize| n < count ==> #[trigger] b.contains(n),
    ensures
        a == b,
{
    lemma_same_prefix(rows, count, a, b, count);
    assert(a =~= b);
}

proof fn lemma_same_prefix<A: Arrangement>(
    rows: &A,
    count: int,
    a: Seq<usize>,
    b: Seq<usize>,
    upto: int,
)
    requires
        0 <= upto <= count,
        in_order(rows, count, a),
        in_order(rows, count, b),
        forall|n: usize| n < count ==> #[trigger] a.contains(n),
        forall|n: usize| n < count ==> #[trigger] b.contains(n),
    ensures
        forall|i: int| 0 <= i < upto ==> a[i] == b[i],
    decreases upto,
{
    if upto > 0 {
        let k = upto - 1;
        lemma_same_prefix(rows, count, a, b, k);
        lemma_in_order_once(rows, count, a);
        lemma_in_order_once(rows, count, b);
        if a[k] != b[k] {
            // Each of the two stands later in the other list.
            assert(b.contains(a[k]));
            assert(a.contains(b[k]));
            let p = choose|p: int| 0 <= p < b.len() && b[p] == a[k];
            let q = choose|q: int| 0 <= q < a.len() && a[q] == b[k];
            if p < k {
                assert(a[p] == a[k]);
            }
            if q < k {
                assert(b[q] == b[k]);
            }
            assert(in_front(rows, usize_of(b[k]), usize_of(b[p])));
            assert(in_front(rows, usize_of(a[k]), usize_of(a[q])));
            lemma_in_front_one_way(rows, usize_of(a[k]), usize_of(b[k]));
        }
    }
}

// ---------------------------------------------------------------------------
// The order itself
// ---------------------------------------------------------------------------

/// Every row once, in order.
pub open spec fn the_order<A: Arrangement>(rows: &A, count: int) -> Seq<usize> {
    choose|list: Seq<usize>|
        {
            &&& #[trigger] in_order(rows, count, list)
            &&& forall|n: usize| n < count ==> list.contains(n)
        }
}

/// Where a row goes among rows in order: in front of the first that it is put
/// in front of.
spec fn goes_at<A: Arrangement>(rows: &A, list: Seq<usize>, row: usize) -> int
    decreases list.len(),
{
    if list.len() == 0 || in_front(rows, usize_of(row), usize_of(list[0])) {
        0
    } else {
        1 + goes_at(rows, list.skip(1), row)
    }
}

proof fn lemma_goes_at<A: Arrangement>(rows: &A, list: Seq<usize>, row: usize)
    ensures
        0 <= goes_at(rows, list, row) <= list.len(),
        goes_at(rows, list, row) < list.len() ==> in_front(
            rows,
            usize_of(row),
            usize_of(list[goes_at(rows, list, row)]),
        ),
        forall|i: int|
            0 <= i < goes_at(rows, list, row) ==> !in_front(
                rows,
                usize_of(row),
                usize_of(#[trigger] list[i]),
            ),
    decreases list.len(),
{
    if list.len() > 0 && !in_front(rows, usize_of(row), usize_of(list[0])) {
        let rest = list.skip(1);
        lemma_goes_at(rows, rest, row);
        assert forall|i: int| 0 <= i < goes_at(rows, list, row) implies !in_front(
            rows,
            usize_of(row),
            usize_of(#[trigger] list[i]),
        ) by {
            if i > 0 {
                assert(list[i] == rest[i - 1]);
            }
        }
    }
}

/// Rows can be put in order, however many there are.
proof fn lemma_there_is_an_order<A: Arrangement>(rows: &A, count: nat) -> (list: Seq<usize>)
    requires
        count <= usize::MAX,
    ensures
        in_order(rows, count as int, list),
        forall|n: usize| n < count ==> #[trigger] list.contains(n),
    decreases count,
{
    if count == 0 {
        Seq::empty()
    } else {
        let before = lemma_there_is_an_order(rows, (count - 1) as nat);
        let row = (count - 1) as usize;
        let at = goes_at(rows, before, row);
        lemma_goes_at(rows, before, row);
        let list = before.insert(at, row);
        assert forall|i: int, j: int| 0 <= i < j < list.len() implies in_front(
            rows,
            usize_of(#[trigger] list[i]),
            usize_of(#[trigger] list[j]),
        ) by {
            if i < at && j < at {
                assert(in_front(rows, usize_of(before[i]), usize_of(before[j])));
            } else if i < at && j == at {
                lemma_in_front_one_way(rows, usize_of(before[i]), usize_of(row));
            } else if i < at {
                assert(in_front(rows, usize_of(before[i]), usize_of(before[j - 1])));
            } else if i == at {
                if j - 1 > at {
                    assert(in_front(rows, usize_of(before[at]), usize_of(before[j - 1])));
                    lemma_in_front_transitive(
                        rows,
                        usize_of(row),
                        usize_of(before[at]),
                        usize_of(before[j - 1]),
                    );
                }
            } else {
                assert(in_front(rows, usize_of(before[i - 1]), usize_of(before[j - 1])));
            }
        }
        assert forall|i: int| 0 <= i < list.len() implies usize_of(#[trigger] list[i])
            < count by {
            if i < at {
                assert(list[i] == before[i]);
            } else if i > at {
                assert(list[i] == before[i - 1]);
            }
        }
        assert forall|n: usize| n < count implies #[trigger] list.contains(n) by {
            if n == row {
                assert(list[at] == row);
            } else {
                assert(before.contains(n));
                let k = choose|k: int| 0 <= k < before.len() && before[k] == n;
                if k < at {
                    assert(list[k] == n);
                } else {
                    assert(list[k + 1] == n);
                }
            }
        }
        list
    }
}

/// The order of some rows is an order of them, each once.
pub proof fn law_the_order_is_in_order<A: Arrangement>(rows: &A, count: nat)
    requires
        count <= usize::MAX,
    ensures
        in_order(rows, count as int, the_order(rows, count as int)),
        forall|n: usize| n < count ==> #[trigger] the_order(rows, count as int).contains(n),
{
    let list = lemma_there_is_an_order(rows, count);
    assert(in_order(rows, count as int, list));
}

/// Rows in order stay in order when some are left out.
pub proof fn law_what_is_left_stays_in_order<A: Arrangement>(
    rows: &A,
    list: Seq<usize>,
    keep: spec_fn(usize) -> bool,
)
    requires
        arranged(rows, list),
    ensures
        arranged(rows, list.filter(keep)),
    decreases list.len(),
{
    reveal(Seq::filter);
    if list.len() > 0 {
        let before = list.drop_last();
        assert forall|i: int, j: int| 0 <= i < j < before.len() implies in_front(
            rows,
            usize_of(#[trigger] before[i]),
            usize_of(#[trigger] before[j]),
        ) by {
            assert(in_front(rows, usize_of(list[i]), usize_of(list[j])));
        }
        law_what_is_left_stays_in_order(rows, before, keep);
        let kept = before.filter(keep);
        if keep(list.last()) {
            let all = kept.push(list.last());
            assert(list.filter(keep) == all);
            assert forall|i: int, j: int| 0 <= i < j < all.len() implies in_front(
                rows,
                usize_of(#[trigger] all[i]),
                usize_of(#[trigger] all[j]),
            ) by {
                if j < kept.len() {
                    assert(in_front(rows, usize_of(kept[i]), usize_of(kept[j])));
                } else {
                    assert(kept.contains(kept[i]));
                    before.lemma_filter_contains_rev(keep, kept[i]);
                    let k = choose|k: int| 0 <= k < before.len() && before[k] == kept[i];
                    assert(list[k] == kept[i]);
                    assert(in_front(rows, usize_of(list[k]), usize_of(list[list.len() - 1])));
                }
            }
        }
    }
}

/// Rows picked out of others, standing to one another as those do.
pub struct Picked<'a, A> {
    pub rows: &'a A,
    pub picks: &'a Vec<usize>,
}

impl<'a, A: Arrangement> Arrangement for Picked<'a, A> {
    /// None where a pick is of no row.
    open spec fn size(&self) -> int {
        if forall|i: int|
            0 <= i < self.picks@.len() ==> usize_of(#[trigger] self.picks@[i]) < self.rows.size() {
            length_of(self.picks@)
        } else {
            0
        }
    }

    open spec fn rank(&self, a: int, b: int) -> Ordering {
        self.rows.rank(usize_of(self.picks@[a]), usize_of(self.picks@[b]))
    }

    proof fn rank_is_total(&self) {
        self.rows.rank_is_total();
        lemma_total_by(
            |a: int, b: int| self.rows.rank(a, b),
            |a: int| usize_of(self.picks@[a]),
            |a: int, b: int| self.rank(a, b),
        );
    }

    fn compare_rows(&self, a: usize, b: usize) -> (r: Ordering) {
        self.rows.compare_rows(self.picks[a], self.picks[b])
    }
}

/// Some rows in order: where two stand level, as they came.
pub open spec fn picked_in_order<A: Arrangement>(rows: &A, picks: &Vec<usize>) -> Seq<usize> {
    the_order(&Picked { rows, picks }, length_of(picks@)).map_values(
        |at: usize| picks@[usize_of(at)],
    )
}

/// Puts some rows in order: where two stand level, as they came.
pub fn sort_picks<A: Arrangement>(rows: &A, picks: &Vec<usize>) -> (r: Vec<usize>)
    requires
        forall|i: int| 0 <= i < picks@.len() ==> usize_of(#[trigger] picks@[i]) < rows.size(),
    ensures
        r@ == picked_in_order(rows, picks),
{
    let table = Picked { rows, picks };
    let order = arrange(&table, picks.len());
    proof {
        law_one_order(
            &table,
            length_of(picks@),
            order@,
            the_order(&table, length_of(picks@)),
        );
    }
    let mut out: Vec<usize> = Vec::new();
    let mut i: usize = 0;
    while i < order.len()
        invariant
            i <= order@.len(),
            order@.len() == picks@.len(),
            out@.len() == i,
            forall|k: int| 0 <= k < order@.len() ==> usize_of(#[trigger] order@[k]) < picks@.len(),
            forall|k: int| 0 <= k < i ==> #[trigger] out@[k] == picks@[usize_of(order@[k])],
        decreases order@.len() - i,
    {
        out.push(picks[order[i]]);
        i = i + 1;
    }
    proof {
        assert(out@ =~= picked_in_order(rows, picks));
    }
    out
}

} // verus!
