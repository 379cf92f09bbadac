//! The rows a table shows: all of them in order, and of those the ones that
//! the query leaves.

use vstd::prelude::*;

use crate::columns::ColumnId;
use crate::filter::{all_words_in, keys_of, mentions_all, Query, QueryView};
use crate::order::{arrange, in_order, law_one_order, the_order, Arrangement};
use crate::azure::allow::copy_all;
use crate::text::{equal, texts};

verus! {

/// Rows that can be put in order and searched.
pub trait Searchable: Arrangement {
    /// Every cell of a row that a person might type part of.
    spec fn searched(&self, at: int) -> Seq<char>;

    /// Whether a row answers every filter of a query.
    spec fn answers(&self, fields: Seq<(Seq<char>, Seq<char>)>, at: int) -> bool;

    /// The filters that the rows know.
    spec fn filter_keys(&self) -> Seq<Seq<char>>;

    fn searched_text(&self, at: usize) -> (r: String)
        requires
            at < self.size(),
        ensures
            r@ == self.searched(at as int),
    ;

    fn answers_query(&self, query: &Query, at: usize) -> (r: bool)
        requires
            at < self.size(),
        ensures
            r == self.answers(query@.fields, at as int),
    ;

    fn filter_schema(&self) -> (r: Vec<&'static str>)
        ensures
            keys_of(r@) == self.filter_keys(),
    ;
}

/// What the order of the rows was last worked out from.
pub type OrderKey = (ColumnId, bool, usize);

/// What a listing holds.
pub struct RowsView {
    pub visible: Seq<usize>,
    pub sorted: Seq<usize>,
    pub haystacks: Seq<Seq<char>>,
    pub ordered_for: Option<OrderKey>,
    pub built_for: Option<(Seq<char>, OrderKey)>,
}

/// Whether a query leaves a row.
pub open spec fn left_by<T: Searchable>(
    table: &T,
    haystacks: Seq<Seq<char>>,
    query: QueryView,
    at: usize,
) -> bool {
    &&& at < haystacks.len()
    &&& table.answers(query.fields, at as int)
    &&& mentions_all(haystacks[at as int], query.words)
}

impl RowsView {
    pub open spec fn empty() -> Self {
        RowsView {
            visible: Seq::empty(),
            sorted: Seq::empty(),
            haystacks: Seq::empty(),
            ordered_for: None,
            built_for: None,
        }
    }

    /// Whether the next look at the rows puts them in order again.
    pub open spec fn out_of_order(self, key: OrderKey) -> bool {
        self.ordered_for != Some(key)
    }

    /// Whether the next look at the rows filters them again.
    pub open spec fn rebuilt(self, key: OrderKey, text: Seq<char>) -> bool {
        self.out_of_order(key) || self.built_for != Some((text, key))
    }

    /// The searchable texts after the next look.
    pub open spec fn texts_after<T: Searchable>(self, table: &T, key: OrderKey) -> Seq<Seq<char>> {
        if self.out_of_order(key) && self.haystacks.len() != key.2 {
            Seq::new(key.2 as nat, |at: int| table.searched(at))
        } else {
            self.haystacks
        }
    }

    /// The listing after the next look: nothing is worked out again unless
    /// the query, the sort or the number of rows has moved.
    pub open spec fn refreshed<T: Searchable>(
        self,
        table: &T,
        key: OrderKey,
        text: Seq<char>,
    ) -> Self {
        let haystacks = self.texts_after(table, key);
        let sorted = if self.out_of_order(key) {
            the_order(table, key.2 as int)
        } else {
            self.sorted
        };
        let query = QueryView::of(text, table.filter_keys());
        if self.rebuilt(key, text) {
            RowsView {
                visible: sorted.filter(
                    |at: usize| at < key.2 && left_by(table, haystacks, query, at),
                ),
                sorted,
                haystacks,
                ordered_for: Some(key),
                built_for: Some((text, key)),
            }
        } else {
            self
        }
    }

    /// The listing once the rows underneath have moved: the next look does
    /// all of the work.
    pub open spec fn spoiled(self) -> Self {
        RowsView { haystacks: Seq::empty(), ordered_for: None, built_for: None, ..self }
    }

    /// What a listing that has just been worked out shows: the rows that the
    /// query leaves, in order.
    pub open spec fn settled<T: Searchable>(
        self,
        table: &T,
        key: OrderKey,
        text: Seq<char>,
    ) -> bool {
        let query = QueryView::of(text, table.filter_keys());
        let haystacks = Seq::new(key.2 as nat, |at: int| table.searched(at));
        &&& self.visible == the_order(table, key.2 as int).filter(
            |at: usize| at < key.2 && left_by(table, haystacks, query, at),
        )
        &&& self.ordered_for == Some(key)
        &&& self.built_for == Some((text, key))
    }
}

/// Which rows of a table are shown, in the order they are shown.
pub struct Rows {
    pub visible: Vec<usize>,
    /// Every row, in sort order. A query filters this rather than the rows,
    /// so the shown rows come out sorted without being sorted again.
    pub sorted: Vec<usize>,
    /// One searchable text per row, built when the rows change rather than
    /// when the query does.
    pub haystacks: Vec<String>,
    /// What `sorted` was last built from.
    pub ordered_for: Option<OrderKey>,
    /// What `visible` was last built from, so a redraw that changed nothing
    /// does not rebuild it.
    pub built_for: Option<(String, OrderKey)>,
}

/// What the shown rows were last built from.
pub open spec fn built_view(built: Option<(String, OrderKey)>) -> Option<(Seq<char>, OrderKey)> {
    match built {
        Some((text, key)) => Some((text@, key)),
        None => None,
    }
}

impl View for Rows {
    type V = RowsView;

    open spec fn view(&self) -> RowsView {
        RowsView {
            visible: self.visible@,
            sorted: self.sorted@,
            haystacks: texts(self.haystacks@),
            ordered_for: self.ordered_for,
            built_for: built_view(self.built_for),
        }
    }
}

fn copy_places(held: &Vec<usize>) -> (r: Vec<usize>)
    ensures
        r@ == held@,
{
    let mut out: Vec<usize> = Vec::new();
    let mut i: usize = 0;
    while i < held.len()
        invariant
            i <= held@.len(),
            out@ == held@.take(i as int),
        decreases held@.len() - i,
    {
        out.push(held[i]);
        proof {
            assert(held@.take(i + 1) =~= held@.take(i as int).push(held@[i as int]));
        }
        i = i + 1;
    }
    proof {
        assert(held@.take(held@.len() as int) =~= held@);
    }
    out
}

impl Rows {
    /// The same rows again.
    #[must_use]
    pub fn copy(&self) -> (r: Self)
        ensures
            r@ == self@,
    {
        let built_for = match &self.built_for {
            Some(built) => Some((built.0.clone(), built.1)),
            None => None,
        };
        let haystacks = copy_all(&self.haystacks);
        proof {
            assert(texts(haystacks@) =~= texts(self.haystacks@));
        }
        Rows {
            visible: copy_places(&self.visible),
            sorted: copy_places(&self.sorted),
            haystacks,
            ordered_for: self.ordered_for,
            built_for,
        }
    }

    #[must_use]
    pub fn new() -> (r: Self)
        ensures
            r@ == RowsView::empty(),
    {
        let r = Rows {
            visible: Vec::new(),
            sorted: Vec::new(),
            haystacks: Vec::new(),
            ordered_for: None,
            built_for: None,
        };
        proof {
            assert(r@.visible =~= Seq::<usize>::empty());
            assert(r@.sorted =~= Seq::<usize>::empty());
            assert(r@.haystacks =~= Seq::<Seq<char>>::empty());
        }
        r
    }

    /// Forces the next look to do the work, after the rows underneath have
    /// moved.
    pub fn invalidate(&mut self)
        ensures
            final(self)@ == old(self)@.spoiled(),
    {
        self.built_for = None;
        self.ordered_for = None;
        self.haystacks.clear();
        proof {
            assert(texts(self.haystacks@) =~= Seq::<Seq<char>>::empty());
        }
    }

    /// Puts the rows in order again at the next look, their texts kept.
    pub fn disorder(&mut self)
        ensures
            final(self)@ == (RowsView { ordered_for: None, ..old(self)@ }),
    {
        self.ordered_for = None;
    }

    fn reorder<T: Searchable>(&mut self, table: &T, key: OrderKey)
        requires
            key.2 == table.size(),
        ensures
            final(self)@.sorted == the_order(table, key.2 as int),
            final(self)@.haystacks == if old(self)@.haystacks.len() != key.2 {
                Seq::new(key.2 as nat, |at: int| table.searched(at))
            } else {
                old(self)@.haystacks
            },
            final(self)@.ordered_for == Some(key),
            final(self)@.built_for is None,
            final(self)@.visible == old(self)@.visible,
    {
        let count: usize = key.2;
        self.ordered_for = Some(key);
        self.built_for = None;
        if self.haystacks.len() != count {
            let mut built: Vec<String> = Vec::new();
            let mut i: usize = 0;
            while i < count
                invariant
                    i <= count,
                    count == table.size(),
                    built@.len() == i,
                    forall|k: int| 0 <= k < i ==> (#[trigger] built@[k])@ == table.searched(k),
                decreases count - i,
            {
                built.push(table.searched_text(i));
                i = i + 1;
            }
            self.haystacks = built;
            proof {
                assert(texts(self.haystacks@) =~= Seq::new(
                    count as nat,
                    |at: int| table.searched(at),
                ));
            }
        }
        let list = arrange(table, count);
        proof {
            let chosen = the_order(table, count as int);
            assert(in_order(table, count as int, list@));
            law_one_order(table, count as int, list@, chosen);
        }
        self.sorted = list;
    }

    /// Looks at the rows again. Cheap to call every frame: it compares first,
    /// and a keystroke only ever re-runs the filter. Says whether the shown
    /// rows were worked out again.
    pub fn refresh<T: Searchable>(&mut self, table: &T, key: OrderKey, text: &str) -> (r: bool)
        requires
            key.2 == table.size(),
        ensures
            final(self)@ == old(self)@.refreshed(table, key, text@),
            r == old(self)@.rebuilt(key, text@),
    {
        let ordered_already = match &self.ordered_for {
            Some(held) => held.0 == key.0 && held.1 == key.1 && held.2 == key.2,
            None => false,
        };
        if !ordered_already {
            self.reorder(table, key);
        }
        let built_already = match &self.built_for {
            Some((held, held_key)) => equal(held.as_str(), text) && held_key.0 == key.0
                && held_key.1 == key.1 && held_key.2 == key.2,
            None => false,
        };
        if built_already {
            return false;
        }
        let schema = table.filter_schema();
        let query = Query::parse(text, &schema);
        let ghost keep = |at: usize|
            at < key.2 && left_by(table, texts(self.haystacks@), query@, at);
        let mut shown: Vec<usize> = Vec::new();
        let mut i: usize = 0;
        proof {
            reveal(Seq::filter);
            assert(shown@ =~= self.sorted@.take(0).filter(keep));
        }
        while i < self.sorted.len()
            invariant
                i <= self.sorted@.len(),
                key.2 == table.size(),
                keep == (|at: usize|
                    at < key.2 && left_by(table, texts(self.haystacks@), query@, at)),
                shown@ == self.sorted@.take(i as int).filter(keep),
            decreases self.sorted@.len() - i,
        {
            proof {
                reveal(Seq::filter);
                assert(self.sorted@.take(i + 1).drop_last() =~= self.sorted@.take(i as int));
            }
            let at: usize = self.sorted[i];
            if at < key.2 && at < self.haystacks.len() && table.answers_query(&query, at)
                && all_words_in(self.haystacks[at].as_str(), &query.words) {
                shown.push(at);
            }
            i = i + 1;
        }
        proof {
            assert(self.sorted@.take(self.sorted@.len() as int) =~= self.sorted@);
        }
        self.visible = shown;
        self.built_for = Some((text.to_owned(), key));
        true
    }
}

/// Once the rows have moved, the next look shows exactly the rows that the
/// query leaves, in order.
pub proof fn law_a_look_settles_the_rows<T: Searchable>(
    rows: RowsView,
    table: &T,
    key: OrderKey,
    text: Seq<char>,
)
    ensures
        rows.spoiled().refreshed(table, key, text).settled(table, key, text),
{
    let haystacks = Seq::new(key.2 as nat, |at: int| table.searched(at));
    assert(rows.spoiled().texts_after(table, key) =~= haystacks);
}

/// A second look at rows that have not moved changes nothing.
pub proof fn law_a_second_look_changes_nothing<T: Searchable>(
    rows: RowsView,
    table: &T,
    key: OrderKey,
    text: Seq<char>,
)
    ensures
        rows.refreshed(table, key, text).refreshed(table, key, text) == rows.refreshed(
            table,
            key,
            text,
        ),
        !rows.refreshed(table, key, text).rebuilt(key, text),
{
}

/// Once the rows have been worked out again, every row shown is one of them.
pub proof fn law_every_row_shown_exists<T: Searchable>(
    rows: RowsView,
    table: &T,
    key: OrderKey,
    text: Seq<char>,
)
    requires
        rows.rebuilt(key, text),
    ensures
        forall|i: int|
            0 <= i < rows.refreshed(table, key, text).visible.len() ==> #[trigger] rows.refreshed(
                table,
                key,
                text,
            ).visible[i] < key.2,
{
    let query = QueryView::of(text, table.filter_keys());
    let haystacks = rows.texts_after(table, key);
    let keep = |at: usize| at < key.2 && left_by(table, haystacks, query, at);
    let sorted = if rows.out_of_order(key) {
        the_order(table, key.2 as int)
    } else {
        rows.sorted
    };
    assert forall|i: int| 0 <= i < sorted.filter(keep).len() implies #[trigger] sorted.filter(
        keep,
    )[i] < key.2 by {
        sorted.lemma_filter_pred(keep, i);
    }
}

/// The rows a query leaves, in order.
pub open spec fn shown_rows<T: Searchable>(table: &T, count: usize, text: Seq<char>) -> Seq<usize> {
    let query = QueryView::of(text, table.filter_keys());
    the_order(table, count as int).filter(
        |at: usize|
            at < count && table.answers(query.fields, at as int) && mentions_all(
                table.searched(at as int),
                query.words,
            ),
    )
}

/// The rows a query leaves, in order, worked out from nothing.
pub fn show_rows<T: Searchable>(table: &T, count: usize, text: &str) -> (r: Vec<usize>)
    requires
        count == table.size(),
    ensures
        r@ == shown_rows(table, count, text@),
{
    let list = arrange(table, count);
    proof {
        assert(in_order(table, count as int, list@));
        law_one_order(table, count as int, list@, the_order(table, count as int));
    }
    let schema = table.filter_schema();
    let query = Query::parse(text, &schema);
    let ghost keep = |at: usize|
        at < count && table.answers(query@.fields, at as int) && mentions_all(
            table.searched(at as int),
            query@.words,
        );
    let mut shown: Vec<usize> = Vec::new();
    let mut i: usize = 0;
    proof {
        reveal(Seq::filter);
        assert(shown@ =~= list@.take(0).filter(keep));
    }
    while i < list.len()
        invariant
            i <= list@.len(),
            count == table.size(),
            keep == (|at: usize|
                at < count && table.answers(query@.fields, at as int) && mentions_all(
                    table.searched(at as int),
                    query@.words,
                )),
            shown@ == list@.take(i as int).filter(keep),
        decreases list@.len() - i,
    {
        proof {
            reveal(Seq::filter);
            assert(list@.take(i + 1).drop_last() =~= list@.take(i as int));
        }
        let at: usize = list[i];
        if at < count && table.answers_query(&query, at) && all_words_in(
            table.searched_text(at).as_str(),
            &query.words,
        ) {
            shown.push(at);
        }
        i = i + 1;
    }
    proof {
        assert(list@.take(list@.len() as int) =~= list@);
    }
    shown
}

} // verus!
