//! Which of the resources found the configuration allows, and which it names
//! in vain.

use vstd::prelude::*;

use super::{views, Registry, Vault};
use crate::text::{equal_ignoring_case, same, texts, trim, trimmed};

verus! {

/// Something an allowlist can name.
pub trait Named: Sized {
    spec fn name_text(&self) -> Seq<char>;

    fn name(&self) -> (r: &str)
        ensures
            r@ == self.name_text(),
    ;

    fn copy(&self) -> (r: Self)
        ensures
            r == *self,
    ;
}

impl Named for String {
    open spec fn name_text(&self) -> Seq<char> {
        self@
    }

    fn name(&self) -> (r: &str) {
        self.as_str()
    }

    fn copy(&self) -> (r: Self) {
        self.clone()
    }
}

impl Named for Vault {
    open spec fn name_text(&self) -> Seq<char> {
        self.name@
    }

    fn name(&self) -> (r: &str) {
        self.name.as_str()
    }

    fn copy(&self) -> (r: Self) {
        self.clone()
    }
}

impl Named for Registry {
    open spec fn name_text(&self) -> Seq<char> {
        self.name@
    }

    fn name(&self) -> (r: &str) {
        self.name.as_str()
    }

    fn copy(&self) -> (r: Self) {
        self.clone()
    }
}

/// The same list again.
#[must_use]
pub fn copy_all<T: Named>(list: &Vec<T>) -> (r: Vec<T>)
    ensures
        r@ == list@,
{
    let mut out: Vec<T> = Vec::new();
    let mut i: usize = 0;
    while i < list.len()
        invariant
            i <= list@.len(),
            out@ == list@.take(i as int),
        decreases list@.len() - i,
    {
        out.push(list[i].copy());
        proof {
            assert(list@.take(i + 1) =~= list@.take(i as int).push(list@[i as int]));
        }
        i = i + 1;
    }
    proof {
        assert(list@.take(list@.len() as int) =~= list@);
    }
    out
}

/// The names of what was found.
pub open spec fn names_of<T: Named>(found: Seq<T>) -> Seq<Seq<char>> {
    found.map_values(|held: T| held.name_text())
}

/// Where the first of that name stands, whatever its case, or how many there
/// are where it is not among them.
pub open spec fn place_of(names: Seq<Seq<char>>, wanted: Seq<char>) -> int
    decreases names.len(),
{
    if names.len() == 0 || same(names[0], wanted) {
        0
    } else {
        1 + place_of(names.skip(1), wanted)
    }
}

proof fn lemma_place_of(names: Seq<Seq<char>>, wanted: Seq<char>, i: int)
    requires
        0 <= i <= names.len(),
        forall|k: int| 0 <= k < i ==> !same(#[trigger] names[k], wanted),
        i < names.len() ==> same(names[i], wanted),
    ensures
        place_of(names, wanted) == i,
    decreases i,
{
    if i > 0 {
        assert(!same(names[0], wanted));
        assert forall|k: int| 0 <= k < i - 1 implies !same(#[trigger] names.skip(1)[k], wanted) by {
            assert(names.skip(1)[k] == names[k + 1]);
        }
        lemma_place_of(names.skip(1), wanted, i - 1);
    }
}

/// The places of what an allowlist names, in the order it names them.
pub open spec fn picks(names: Seq<Seq<char>>, wanted: Seq<Seq<char>>) -> Seq<int>
    decreases wanted.len(),
{
    if wanted.len() == 0 {
        Seq::empty()
    } else {
        let before = picks(names, wanted.drop_last());
        let at = place_of(names, trimmed(wanted.last()));
        if at < names.len() {
            before.push(at)
        } else {
            before
        }
    }
}

/// What an allowlist keeps of what was found under those names. An empty one
/// keeps everything.
pub open spec fn kept<V>(
    found: Seq<V>,
    names: Seq<Seq<char>>,
    wanted: Seq<Seq<char>>,
) -> Seq<V> {
    if wanted.len() == 0 {
        found
    } else {
        picks(names, wanted).map_values(|at: int| found[at])
    }
}

/// Where the first of a name stands.
pub proof fn lemma_place_in_range(names: Seq<Seq<char>>, wanted: Seq<char>)
    ensures
        0 <= place_of(names, wanted) <= names.len(),
        place_of(names, wanted) < names.len() ==> same(names[place_of(names, wanted)], wanted),
        forall|k: int| 0 <= k < place_of(names, wanted) ==> !same(#[trigger] names[k], wanted),
    decreases names.len(),
{
    if names.len() > 0 && !same(names[0], wanted) {
        lemma_place_in_range(names.skip(1), wanted);
        let at = place_of(names.skip(1), wanted);
        assert forall|k: int| 0 <= k < at + 1 implies !same(#[trigger] names[k], wanted) by {
            if k > 0 {
                assert(names.skip(1)[k - 1] == names[k]);
            }
        }
    }
}

/// The places of an allowlist's names are places of what was found.
pub proof fn lemma_picks(names: Seq<Seq<char>>, wanted: Seq<Seq<char>>)
    ensures
        forall|i: int|
            0 <= i < picks(names, wanted).len() ==> 0 <= #[trigger] picks(names, wanted)[i]
                < names.len(),
    decreases wanted.len(),
{
    if wanted.len() > 0 {
        let before = picks(names, wanted.drop_last());
        lemma_picks(names, wanted.drop_last());
        lemma_place_in_range(names, trimmed(wanted.last()));
        assert forall|i: int| 0 <= i < picks(names, wanted).len() implies 0
            <= #[trigger] picks(names, wanted)[i] < names.len() by {
            if i < before.len() {
                assert(picks(names, wanted)[i] == before[i]);
            }
        }
    }
}

fn find_named<T: Named>(found: &Vec<T>, wanted: &str) -> (r: usize)
    ensures
        r == place_of(names_of(found@), wanted@),
        r <= found@.len(),
{
    let mut i: usize = 0;
    while i < found.len() && !equal_ignoring_case(found[i].name(), wanted)
        invariant
            i <= found@.len(),
            forall|k: int| 0 <= k < i ==> !same(#[trigger] names_of(found@)[k], wanted@),
        decreases found@.len() - i,
    {
        i = i + 1;
    }
    proof {
        lemma_place_of(names_of(found@), wanted@, i as int);
    }
    i
}

/// The resources an allowlist names, in the order it names them, matched
/// without regard to case. An empty allowlist keeps everything; a name the
/// login cannot reach is simply absent, and `doctor` is what reports it.
#[must_use]
pub fn allowed<T: Named>(found: Vec<T>, names: &Vec<String>) -> (r: Vec<T>)
    ensures
        r@ == kept(found@, names_of(found@), texts(names@)),
{
    let ghost wanted = texts(names@);
    if names.len() == 0 {
        return found;
    }
    let mut out: Vec<T> = Vec::new();
    let mut i: usize = 0;
    proof {
        assert(wanted.take(0) =~= Seq::<Seq<char>>::empty());
        assert(out@ =~= picks(names_of(found@), wanted.take(0)).map_values(|at: int| found@[at]));
    }
    while i < names.len()
        invariant
            i <= names@.len(),
            wanted == texts(names@),
            out@ == picks(names_of(found@), wanted.take(i as int)).map_values(
                |at: int| found@[at],
            ),
        decreases names@.len() - i,
    {
        let name = trim(names[i].as_str());
        let at: usize = find_named(&found, name.as_str());
        proof {
            assert(wanted.take(i + 1).drop_last() =~= wanted.take(i as int));
            assert(wanted.take(i + 1).last() == names@[i as int]@);
        }
        if at < found.len() {
            let ghost before = picks(names_of(found@), wanted.take(i as int));
            out.push(found[at].copy());
            proof {
                assert(out@ =~= before.push(at as int).map_values(|at: int| found@[at]));
            }
        }
        i = i + 1;
    }
    proof {
        assert(wanted.take(wanted.len() as int) =~= wanted);
    }
    out
}

/// The names an allowlist holds that nothing found bears.
pub open spec fn absent(names: Seq<Seq<char>>, wanted: Seq<Seq<char>>) -> Seq<Seq<char>>
    decreases wanted.len(),
{
    if wanted.len() == 0 {
        Seq::empty()
    } else {
        let before = absent(names, wanted.drop_last());
        let name = trimmed(wanted.last());
        if name.len() > 0 && place_of(names, name) == names.len() {
            before.push(name)
        } else {
            before
        }
    }
}

/// The allowlist names nothing found, for `doctor` to say so.
#[must_use]
pub fn missing<T: Named>(found: &Vec<T>, names: &Vec<String>) -> (r: Vec<String>)
    ensures
        texts(r@) == absent(names_of(found@), texts(names@)),
{
    let ghost wanted = texts(names@);
    let mut out: Vec<String> = Vec::new();
    let mut i: usize = 0;
    proof {
        assert(wanted.take(0) =~= Seq::<Seq<char>>::empty());
        assert(texts(out@) =~= Seq::<Seq<char>>::empty());
    }
    while i < names.len()
        invariant
            i <= names@.len(),
            wanted == texts(names@),
            texts(out@) == absent(names_of(found@), wanted.take(i as int)),
        decreases names@.len() - i,
    {
        let name = trim(names[i].as_str());
        proof {
            assert(wanted.take(i + 1).drop_last() =~= wanted.take(i as int));
            assert(wanted.take(i + 1).last() == names@[i as int]@);
        }
        if !name.as_str().is_empty() && find_named(found, name.as_str()) == found.len() {
            let ghost before = out@;
            let ghost said = name@;
            out.push(name);
            proof {
                assert(texts(out@) =~= texts(before).push(said));
            }
        }
        i = i + 1;
    }
    proof {
        assert(wanted.take(wanted.len() as int) =~= wanted);
    }
    out
}

/// Every name on an allowlist either picks something found or is missing.
pub proof fn law_every_name_is_found_or_missing(names: Seq<Seq<char>>, wanted: Seq<Seq<char>>)
    ensures
        forall|i: int|
            0 <= i < wanted.len() && trimmed(#[trigger] wanted[i]).len() > 0 ==> (picks(
                names,
                wanted,
            ).contains(place_of(names, trimmed(wanted[i]))) || absent(names, wanted).contains(
                trimmed(wanted[i]),
            )),
    decreases wanted.len(),
{
    if wanted.len() > 0 {
        let rest = wanted.drop_last();
        law_every_name_is_found_or_missing(names, rest);
        lemma_place_in_range(names, trimmed(wanted.last()));
        assert forall|i: int|
            0 <= i < wanted.len() && trimmed(#[trigger] wanted[i]).len() > 0 implies (picks(
            names,
            wanted,
        ).contains(place_of(names, trimmed(wanted[i]))) || absent(names, wanted).contains(
            trimmed(wanted[i]),
        )) by {
            let name = trimmed(wanted[i]);
            let at = place_of(names, name);
            if i < rest.len() {
                assert(rest[i] == wanted[i]);
                if picks(names, rest).contains(at) {
                    let k = picks(names, rest).index_of(at);
                    assert(picks(names, wanted)[k] == at);
                } else {
                    let k = absent(names, rest).index_of(name);
                    assert(absent(names, wanted)[k] == name);
                }
            } else {
                if at < names.len() {
                    assert(picks(names, wanted).last() == at);
                } else {
                    assert(absent(names, wanted).last() == name);
                }
            }
        }
    }
}

/// An allowlist keeps only what was found, and only under names it holds.
pub proof fn law_an_allowlist_invents_nothing(
    found: Seq<Seq<char>>,
    names: Seq<Seq<char>>,
    wanted: Seq<Seq<char>>,
)
    requires
        found.len() == names.len(),
    ensures
        forall|i: int|
            0 <= i < kept(found, names, wanted).len() ==> found.contains(
                #[trigger] kept(found, names, wanted)[i],
            ),
        wanted.len() > 0 ==> kept(found, names, wanted).len() <= wanted.len(),
{
    lemma_picks(names, wanted);
    lemma_picks_are_few(names, wanted);
}

proof fn lemma_picks_are_few(names: Seq<Seq<char>>, wanted: Seq<Seq<char>>)
    ensures
        picks(names, wanted).len() <= wanted.len(),
    decreases wanted.len(),
{
    if wanted.len() > 0 {
        lemma_picks_are_few(names, wanted.drop_last());
    }
}

/// What an allowlist keeps says what it kept of what was found said.
pub proof fn lemma_kept_views<T: View>(
    found: Seq<T>,
    names: Seq<Seq<char>>,
    wanted: Seq<Seq<char>>,
)
    requires
        found.len() == names.len(),
    ensures
        views(kept(found, names, wanted)) == kept(views(found), names, wanted),
{
    lemma_picks(names, wanted);
    assert(views(kept(found, names, wanted)) =~= kept(views(found), names, wanted));
}

} // verus!
